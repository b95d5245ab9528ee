use midi_codec::chunk::chunk_types::{same_tag, HEADER_CHUNK, TRACK_DATA_CHUNK};
use midi_codec::chunk::header::{u16_from_be, u16_to_be, HeaderChunk, InvalidFormat};
use midi_codec::chunk::track::event::{MidiEvent, NoteMeta, UnsupportedStatusCode};
use midi_codec::chunk::track::{TrackChunk, TrackError, TrackEvent};
use midi_codec::chunk::{ChunkParseError, ParsedChunk};
use midi_codec::Chunk;

#[test]
fn chunk_tags_are_ascii() {
    assert_eq!(&HEADER_CHUNK, b"MThd");
    assert_eq!(&TRACK_DATA_CHUNK, b"MTrk");
    assert!(same_tag(&HEADER_CHUNK, &HEADER_CHUNK));
    assert!(!same_tag(&HEADER_CHUNK, &TRACK_DATA_CHUNK));
    assert!(!same_tag(&[1, 2, 3, 4], &[1, 2, 3, 5]));
    assert!(!same_tag(&[0, 2, 3, 4], &[1, 2, 3, 4]));
}

#[test]
fn chunk_len_is_the_declared_length() {
    assert_eq!(Chunk { chunk_type: HEADER_CHUNK, length: 6 }.len(), 6);
    assert_eq!(Chunk { chunk_type: TRACK_DATA_CHUNK, length: 0xFFFF_FFFF }.len(), 0xFFFF_FFFF);
}

#[test]
fn big_endian_fields() {
    assert_eq!(u16_from_be(0x00, 0x60), 96);
    assert_eq!(u16_from_be(0x01, 0x02), 0x0102);
    assert_eq!(u16_from_be(0xFF, 0xFE), 0xFFFE);
    assert_eq!(u16_to_be(0x0102), (0x01, 0x02));
    assert_eq!(u16_to_be(96), (0, 96));
    assert_eq!(u16_to_be(0xE250), (0xE2, 0x50));
}

#[test]
fn header_chunk_boundary() {
    let five = ParsedChunk::try_from((
        Chunk { chunk_type: HEADER_CHUNK, length: 5 },
        vec![0, 1, 0, 2, 0],
    ));
    assert_eq!(five, Err(ChunkParseError::InvalidFormat(InvalidFormat)));
    let six = ParsedChunk::try_from((
        Chunk { chunk_type: HEADER_CHUNK, length: 6 },
        vec![0, 1, 0, 2, 0, 96],
    ));
    assert_eq!(six, Ok(ParsedChunk::Header(HeaderChunk { format: 1, ntrk: 2, division: 96 })));
    let seven = ParsedChunk::try_from((
        Chunk { chunk_type: HEADER_CHUNK, length: 7 },
        vec![0, 1, 0, 2, 0, 96, 0],
    ));
    assert_eq!(seven, Err(ChunkParseError::InvalidFormat(InvalidFormat)));
}

#[test]
fn header_needs_six_payload_bytes() {
    let short = ParsedChunk::try_from((
        Chunk { chunk_type: HEADER_CHUNK, length: 6 },
        vec![0, 1, 0, 2, 0],
    ));
    assert_eq!(short, Err(ChunkParseError::InvalidFormat(InvalidFormat)));
    let empty = ParsedChunk::try_from((Chunk { chunk_type: HEADER_CHUNK, length: 6 }, Vec::new()));
    assert_eq!(empty, Err(ChunkParseError::InvalidFormat(InvalidFormat)));
}

#[test]
fn header_fields_are_big_endian() {
    let parsed = ParsedChunk::try_from((
        Chunk { chunk_type: HEADER_CHUNK, length: 6 },
        vec![0x00, 0x02, 0x01, 0x00, 0xE2, 0x50],
    ));
    assert_eq!(
        parsed,
        Ok(ParsedChunk::Header(HeaderChunk { format: 2, ntrk: 256, division: 0xE250 }))
    );
}

#[test]
fn header_fields_that_do_not_go_together() {
    assert_eq!(HeaderChunk::try_from((3, 1, 96)), Err(InvalidFormat));
    assert_eq!(HeaderChunk::try_from((0x0100, 1, 96)), Err(InvalidFormat));
    assert_eq!(HeaderChunk::try_from((0, 2, 96)), Err(InvalidFormat));
    assert_eq!(HeaderChunk::try_from((0, 0, 96)), Err(InvalidFormat));
    assert_eq!(
        HeaderChunk::try_from((0, 1, 96)),
        Ok(HeaderChunk { format: 0, ntrk: 1, division: 96 })
    );
    assert_eq!(
        HeaderChunk::try_from((1, 0, 0)),
        Ok(HeaderChunk { format: 1, ntrk: 0, division: 0 })
    );
    assert_eq!(
        HeaderChunk::try_from((2, 0xFFFF, 0xFFFF)),
        Ok(HeaderChunk { format: 2, ntrk: 0xFFFF, division: 0xFFFF })
    );
    let refused = ParsedChunk::try_from((
        Chunk { chunk_type: HEADER_CHUNK, length: 6 },
        vec![0, 3, 0, 1, 0, 96],
    ));
    assert_eq!(refused, Err(ChunkParseError::InvalidFormat(InvalidFormat)));
    assert!(HeaderChunk { format: 1, ntrk: 2, division: 96 }.is_well_formed());
    assert!(!HeaderChunk { format: 0, ntrk: 2, division: 96 }.is_well_formed());
    assert!(!HeaderChunk { format: 3, ntrk: 1, division: 96 }.is_well_formed());
}

#[test]
fn header_round_trip() {
    for fields in [(0u16, 1u16, 96u16), (1, 2, 96), (1, 0x1234, 0x5678), (2, 0xFFFF, 0xE728)] {
        let header = HeaderChunk::try_from(fields).unwrap();
        let bytes = header.to_midi_bytes();
        assert_eq!(bytes.len(), 6);
        let parsed =
            ParsedChunk::try_from((Chunk { chunk_type: HEADER_CHUNK, length: 6 }, bytes));
        assert_eq!(parsed, Ok(ParsedChunk::Header(header)));
    }
    assert_eq!(
        HeaderChunk { format: 1, ntrk: 2, division: 96 }.to_midi_bytes(),
        vec![0, 1, 0, 2, 0, 96]
    );
}

#[test]
fn unknown_chunk_tag() {
    let payloads: Vec<Vec<u8>> = vec![
        Vec::new(),
        vec![0, 1, 0, 2, 0, 96],
        vec![0x00, 0x90, 0x3C, 0x7F],
        vec![0xFF; 32],
    ];
    for tag in [*b"XXXX", *b"MThD", *b"mtrk", *b"MTr\0", [0, 0, 0, 0]] {
        for payload in payloads.iter() {
            let chunk = Chunk { chunk_type: tag, length: payload.len() as u32 };
            assert_eq!(
                ParsedChunk::try_from((chunk, payload.clone())),
                Err(ChunkParseError::UnknownType)
            );
        }
    }
}

#[test]
fn track_chunk_is_parsed_to_its_end() {
    let data = vec![0x00, 0x90, 0x3C, 0x7F, 0x60, 0x80, 0x3C, 0x00];
    let chunk = Chunk { chunk_type: TRACK_DATA_CHUNK, length: 8 };
    let expected = TrackChunk {
        events: vec![
            TrackEvent {
                delta_time: 0,
                event: MidiEvent::NoteOn(0, NoteMeta { key: 60, velocity: 127 }),
            },
            TrackEvent {
                delta_time: 96,
                event: MidiEvent::NoteOff(0, NoteMeta { key: 60, velocity: 0 }),
            },
        ],
    };
    assert_eq!(ParsedChunk::try_from((chunk, data)), Ok(ParsedChunk::Track(expected)));
    let empty = ParsedChunk::try_from((Chunk { chunk_type: TRACK_DATA_CHUNK, length: 0 }, vec![]));
    assert_eq!(empty, Ok(ParsedChunk::Track(TrackChunk { events: vec![] })));
}

#[test]
fn track_errors_are_wrapped() {
    let chunk = Chunk { chunk_type: TRACK_DATA_CHUNK, length: 3 };
    assert_eq!(
        ParsedChunk::try_from((chunk, vec![0x00, 0x20, 0x00])),
        Err(ChunkParseError::TrackParseError(TrackError::UnsupportedStatus {
            offset: 1,
            code: UnsupportedStatusCode(0x2),
        }))
    );
    assert_eq!(
        ParsedChunk::try_from((chunk, vec![0x00, 0x90, 0x3C])),
        Err(ChunkParseError::TrackParseError(TrackError::UnexpectedEnd { offset: 1 }))
    );
}

#[test]
fn errors_convert_into_chunk_errors() {
    assert_eq!(ChunkParseError::from(InvalidFormat), ChunkParseError::InvalidFormat(InvalidFormat));
    let error = TrackError::DeltaTimeTooLong { offset: 9 };
    assert_eq!(ChunkParseError::from(error), ChunkParseError::TrackParseError(error));
}
