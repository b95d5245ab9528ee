//! Decoding and encoding of the chunks and channel events of Standard MIDI Files.

use vstd::prelude::*;

pub mod chunk;

verus! {

/// The framing of one chunk as it was read: its four-byte type tag and the
/// length that its length field declared.
#[derive(Debug, Clone, Copy, PartialEq, Eq)]
pub struct Chunk {
    /// The four bytes of the type tag.
    pub chunk_type: [u8; 4],
    /// The declared number of payload bytes.
    pub length: u32,
}

impl Chunk {
    /// The declared number of payload bytes.
    pub fn len(&self) -> (n: u32)
        ensures
            n == self.length,
    {
        self.length
    }
}

} // verus!
