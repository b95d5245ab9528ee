//! The header chunk: the file's format, its number of tracks and its time
//! division.

use vstd::prelude::*;

verus! {

/// The error for a header chunk that is not six bytes long or whose fields
/// do not go together.
#[derive(Debug, Clone, Copy, PartialEq, Eq, Structural)]
pub struct InvalidFormat;

/// The three fields of a header chunk.
#[derive(Debug, Clone, Copy, PartialEq, Eq, Structural)]
pub struct HeaderChunk {
    /// The file format: 0 for a single track, 1 for simultaneous tracks, 2
    /// for independent tracks.
    pub format: u16,
    /// The number of track chunks that follow the header.
    pub ntrk: u16,
    /// The meaning of the delta times.
    pub division: u16,
}

/// The largest file format number.
pub const MAX_FORMAT: u16 = 2;

/// The number of payload bytes of a header chunk.
pub const HEADER_LENGTH: u32 = 6;

/// Whether three header fields go together: the format is 0, 1 or 2, and a
/// file of format 0 has exactly one track. Any division is accepted.
pub open spec fn fields_valid(format: u16, ntrk: u16, division: u16) -> bool {
    &&& format <= MAX_FORMAT
    &&& format == 0 ==> ntrk == 1
}

/// The sixteen-bit number whose big-endian bytes are `high`, `low`.
pub open spec fn be16(high: u8, low: u8) -> u16 {
    (256 * high + low) as u16
}

/// The sixteen-bit number whose big-endian bytes are `high`, `low`.
pub fn u16_from_be(high: u8, low: u8) -> (value: u16)
    ensures
        value == be16(high, low),
{
    let value: u16 = ((high as u16) << 8) | (low as u16);
    assert((((high as u16) << 8) | (low as u16)) == 256 * high + low) by (bit_vector);
    value
}

/// The two big-endian bytes of a sixteen-bit number.
pub fn u16_to_be(value: u16) -> (bytes: (u8, u8))
    ensures
        bytes.0 == value / 256,
        bytes.1 == value % 256,
        be16(bytes.0, bytes.1) == value,
{
    let high: u8 = (value >> 8) as u8;
    let low: u8 = (value & 0xFF) as u8;
    assert(value >> 8 == value / 256) by (bit_vector);
    assert(value & 0xFF == value % 256) by (bit_vector);
    (high, low)
}

impl HeaderChunk {
    /// Whether the fields of this header go together.
    pub open spec fn well_formed(self) -> bool {
        fields_valid(self.format, self.ntrk, self.division)
    }

    /// The header with the fields `(format, ntrk, division)`, if they go
    /// together.
    pub open spec fn from_fields(fields: (u16, u16, u16)) -> Result<HeaderChunk, InvalidFormat> {
        if fields_valid(fields.0, fields.1, fields.2) {
            Ok(HeaderChunk { format: fields.0, ntrk: fields.1, division: fields.2 })
        } else {
            Err(InvalidFormat)
        }
    }

    /// The six payload bytes of this header: each field as two big-endian
    /// bytes, in the order format, number of tracks, division.
    pub open spec fn wire(self) -> Seq<u8> {
        seq![
            (self.format / 256) as u8,
            (self.format % 256) as u8,
            (self.ntrk / 256) as u8,
            (self.ntrk % 256) as u8,
            (self.division / 256) as u8,
            (self.division % 256) as u8,
        ]
    }

    /// Builds a header from `(format, ntrk, division)`, or refuses the
    /// fields when they do not go together.
    pub fn try_from(value: (u16, u16, u16)) -> (r: Result<HeaderChunk, InvalidFormat>)
        ensures
            r == HeaderChunk::from_fields(value),
            r is Ok <==> fields_valid(value.0, value.1, value.2),
            r matches Ok(header) ==> header.well_formed(),
    {
        let (format, ntrk, division) = value;
        if format > MAX_FORMAT || (format == 0 && ntrk != 1) {
            Err(InvalidFormat)
        } else {
            Ok(HeaderChunk { format, ntrk, division })
        }
    }

    /// Whether the fields of this header go together.
    pub fn is_well_formed(&self) -> (b: bool)
        ensures
            b == self.well_formed(),
    {
        self.format <= MAX_FORMAT && (self.format != 0 || self.ntrk == 1)
    }

    /// Encodes the payload of this header chunk.
    pub fn to_midi_bytes(self) -> (bytes: Vec<u8>)
        ensures
            bytes@ == self.wire(),
            bytes@.len() == HEADER_LENGTH,
            self.well_formed() ==> parse_header(bytes@) == Ok::<HeaderChunk, InvalidFormat>(self),
    {
        let format = u16_to_be(self.format);
        let ntrk = u16_to_be(self.ntrk);
        let division = u16_to_be(self.division);
        let mut bytes: Vec<u8> = Vec::new();
        bytes.push(format.0);
        bytes.push(format.1);
        bytes.push(ntrk.0);
        bytes.push(ntrk.1);
        bytes.push(division.0);
        bytes.push(division.1);
        assert(bytes@ =~= self.wire());
        bytes
    }
}

/// Reads the payload of a header chunk: it must be six bytes long, and the
/// three big-endian fields in it must go together.
pub open spec fn parse_header(data: Seq<u8>) -> Result<HeaderChunk, InvalidFormat> {
    if data.len() == HEADER_LENGTH {
        HeaderChunk::from_fields(
            (be16(data[0], data[1]), be16(data[2], data[3]), be16(data[4], data[5])),
        )
    } else {
        Err(InvalidFormat)
    }
}

/// Reading the payload that a well-formed header encodes to gives the header
/// back.
pub proof fn lemma_header_round_trip(header: HeaderChunk)
    requires
        header.well_formed(),
    ensures
        parse_header(header.wire()) == Ok::<HeaderChunk, InvalidFormat>(header),
{
}

} // verus!
