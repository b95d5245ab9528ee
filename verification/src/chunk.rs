//! Parsed chunks and the classification of raw chunks.
//!
//! A raw chunk is the framing that was read, its type tag and declared
//! length, together with the payload bytes. Classifying it looks at the tag
//! alone to decide how the payload is read.

use vstd::prelude::*;
use vstd::std_specs::convert::FromSpecImpl;
use crate::Chunk;
use crate::chunk::chunk_types::{same_tag, HEADER_CHUNK, TRACK_DATA_CHUNK};
use crate::chunk::header::{parse_header, u16_from_be, HeaderChunk, InvalidFormat, HEADER_LENGTH};
use crate::chunk::track::{parse_track, TrackChunk, TrackError, TrackEvent};

pub mod chunk_types;
pub mod header;
pub mod track;

verus! {

/// A parsed chunk with the data of its kind.
#[derive(Debug, Clone, PartialEq, Eq)]
pub enum ParsedChunk {
    /// A header chunk.
    Header(HeaderChunk),
    /// A track chunk.
    Track(TrackChunk),
}

/// Why a raw chunk could not be parsed.
#[derive(Debug, Clone, Copy, PartialEq, Eq, Structural)]
pub enum ChunkParseError {
    /// The chunk is tagged as a header, and it is not six bytes long or its
    /// fields do not go together.
    InvalidFormat(InvalidFormat),
    /// The type tag is that of no known kind of chunk.
    UnknownType,
    /// The chunk is tagged as a track, and its payload could not be parsed.
    TrackParseError(TrackError),
}

/// What a parsed chunk holds.
pub enum ChunkContent {
    /// The fields of a header chunk.
    Header(HeaderChunk),
    /// The events of a track chunk.
    Track(Seq<TrackEvent>),
}

impl View for ParsedChunk {
    type V = ChunkContent;

    open spec fn view(&self) -> ChunkContent {
        match self {
            ParsedChunk::Header(header) => ChunkContent::Header(*header),
            ParsedChunk::Track(track) => ChunkContent::Track(track@),
        }
    }
}

impl From<InvalidFormat> for ChunkParseError {
    fn from(error: InvalidFormat) -> (r: ChunkParseError) {
        ChunkParseError::InvalidFormat(error)
    }
}

impl FromSpecImpl<InvalidFormat> for ChunkParseError {
    open spec fn obeys_from_spec() -> bool {
        true
    }

    open spec fn from_spec(error: InvalidFormat) -> ChunkParseError {
        ChunkParseError::InvalidFormat(error)
    }
}

impl From<TrackError> for ChunkParseError {
    fn from(error: TrackError) -> (r: ChunkParseError) {
        ChunkParseError::TrackParseError(error)
    }
}

impl FromSpecImpl<TrackError> for ChunkParseError {
    open spec fn obeys_from_spec() -> bool {
        true
    }

    open spec fn from_spec(error: TrackError) -> ChunkParseError {
        ChunkParseError::TrackParseError(error)
    }
}

/// Whether `chunk` carries the tag of a header chunk.
pub open spec fn is_header(chunk: Chunk) -> bool {
    chunk.chunk_type@ == HEADER_CHUNK@
}

/// Whether `chunk` carries the tag of a track chunk.
pub open spec fn is_track(chunk: Chunk) -> bool {
    chunk.chunk_type@ == TRACK_DATA_CHUNK@
}

/// Classifies a raw chunk by its tag and reads the payload accordingly.
///
/// A header chunk must declare a length of six and hold six payload bytes,
/// three big-endian fields that go together. The payload of a track chunk
/// is parsed to its end. Any other tag is refused, whatever the payload.
pub open spec fn classify(chunk: Chunk, data: Seq<u8>) -> Result<ChunkContent, ChunkParseError> {
    if is_header(chunk) {
        if chunk.length == HEADER_LENGTH {
            match parse_header(data) {
                Ok(header) => Ok(ChunkContent::Header(header)),
                Err(error) => Err(ChunkParseError::InvalidFormat(error)),
            }
        } else {
            Err(ChunkParseError::InvalidFormat(InvalidFormat))
        }
    } else if is_track(chunk) {
        match parse_track(data) {
            Ok(events) => Ok(ChunkContent::Track(events)),
            Err(error) => Err(ChunkParseError::TrackParseError(error)),
        }
    } else {
        Err(ChunkParseError::UnknownType)
    }
}

impl ParsedChunk {
    /// Parses a raw chunk, given as its framing and its payload.
    pub fn try_from(value: (Chunk, Vec<u8>)) -> (r: Result<ParsedChunk, ChunkParseError>)
        ensures
            match r {
                Ok(parsed) => classify(value.0, value.1@) == Ok::<ChunkContent, ChunkParseError>(
                    parsed@,
                ),
                Err(error) => classify(value.0, value.1@) == Err::<ChunkContent, ChunkParseError>(
                    error,
                ),
            },
            r matches Ok(ParsedChunk::Header(header)) ==> header.well_formed(),
            r matches Ok(ParsedChunk::Track(track)) ==> track.well_formed(),
    {
        let (chunk, data) = value;
        if same_tag(&chunk.chunk_type, &HEADER_CHUNK) {
            if chunk.len() == HEADER_LENGTH && data.len() == 6 {
                let format: u16 = u16_from_be(data[0], data[1]);
                let ntrk: u16 = u16_from_be(data[2], data[3]);
                let division: u16 = u16_from_be(data[4], data[5]);
                match HeaderChunk::try_from((format, ntrk, division)) {
                    Ok(parsed) => Ok(ParsedChunk::Header(parsed)),
                    Err(error) => Err(ChunkParseError::from(error)),
                }
            } else {
                Err(ChunkParseError::InvalidFormat(InvalidFormat))
            }
        } else if same_tag(&chunk.chunk_type, &TRACK_DATA_CHUNK) {
            match TrackChunk::try_from(data) {
                Ok(parsed) => Ok(ParsedChunk::Track(parsed)),
                Err(error) => Err(ChunkParseError::from(error)),
            }
        } else {
            Err(ChunkParseError::UnknownType)
        }
    }
}

/// A chunk whose tag is neither that of a header nor that of a track is
/// refused as of unknown type, whatever its declared length and payload.
pub proof fn lemma_unknown_tag_refused(chunk: Chunk, data: Seq<u8>)
    requires
        !is_header(chunk),
        !is_track(chunk),
    ensures
        classify(chunk, data) == Err::<ChunkContent, ChunkParseError>(
            ChunkParseError::UnknownType,
        ),
{
}

/// A chunk tagged as a header is refused as of invalid format unless it
/// declares a length of six and holds six payload bytes.
pub proof fn lemma_header_length(chunk: Chunk, data: Seq<u8>)
    requires
        is_header(chunk),
        chunk.length != HEADER_LENGTH || data.len() != HEADER_LENGTH,
    ensures
        classify(chunk, data) == Err::<ChunkContent, ChunkParseError>(
            ChunkParseError::InvalidFormat(InvalidFormat),
        ),
{
}

} // verus!
