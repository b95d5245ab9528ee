//! The type tags of the chunks that a Standard MIDI File is made of.

use vstd::prelude::*;

verus! {

/// The tag of a header chunk, the ASCII letters `MThd`.
pub const HEADER_CHUNK: [u8; 4] = [0x4D, 0x54, 0x68, 0x64];

/// The tag of a track chunk, the ASCII letters `MTrk`.
pub const TRACK_DATA_CHUNK: [u8; 4] = [0x4D, 0x54, 0x72, 0x6B];

/// Whether two tags hold the same four bytes.
pub fn same_tag(left: &[u8; 4], right: &[u8; 4]) -> (same: bool)
    ensures
        same == (left@ == right@),
{
    let same: bool = left[0] == right[0] && left[1] == right[1] && left[2] == right[2] && left[3]
        == right[3];
    if same {
        assert(left@ =~= right@);
    }
    same
}

} // verus!
