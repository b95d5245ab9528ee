use midi_codec::chunk::track::event::{ControlChange, MidiEvent, NoteMeta, UnsupportedStatusCode};
use midi_codec::chunk::track::{
    read_delta_time, write_delta_time, DeltaError, TrackChunk, TrackError, TrackEvent,
    MAX_DELTA_TIME,
};

fn delta_bytes(value: u32) -> Vec<u8> {
    let mut out = Vec::new();
    write_delta_time(value, &mut out);
    out
}

#[test]
fn delta_time_reference_encodings() {
    assert_eq!(delta_bytes(0x0000_0000), vec![0x00]);
    assert_eq!(delta_bytes(0x0000_0040), vec![0x40]);
    assert_eq!(delta_bytes(0x0000_007F), vec![0x7F]);
    assert_eq!(delta_bytes(0x0000_0080), vec![0x81, 0x00]);
    assert_eq!(delta_bytes(0x0000_2000), vec![0xC0, 0x00]);
    assert_eq!(delta_bytes(0x0000_3FFF), vec![0xFF, 0x7F]);
    assert_eq!(delta_bytes(0x0000_4000), vec![0x81, 0x80, 0x00]);
    assert_eq!(delta_bytes(0x0010_0000), vec![0xC0, 0x80, 0x00]);
    assert_eq!(delta_bytes(0x001F_FFFF), vec![0xFF, 0xFF, 0x7F]);
    assert_eq!(delta_bytes(0x0020_0000), vec![0x81, 0x80, 0x80, 0x00]);
    assert_eq!(delta_bytes(0x0800_0000), vec![0xC0, 0x80, 0x80, 0x00]);
    assert_eq!(delta_bytes(0x0FFF_FFFF), vec![0xFF, 0xFF, 0xFF, 0x7F]);
}

#[test]
fn delta_time_reference_decodings() {
    assert_eq!(read_delta_time(&[0x00]), Ok((0, 1)));
    assert_eq!(read_delta_time(&[0x7F, 0xFF]), Ok((0x7F, 1)));
    assert_eq!(read_delta_time(&[0x81, 0x00]), Ok((0x80, 2)));
    assert_eq!(read_delta_time(&[0xFF, 0x7F, 0x00]), Ok((0x3FFF, 2)));
    assert_eq!(read_delta_time(&[0x81, 0x80, 0x00]), Ok((0x4000, 3)));
    assert_eq!(read_delta_time(&[0xC0, 0x80, 0x80, 0x00]), Ok((0x0800_0000, 4)));
    assert_eq!(read_delta_time(&[0xFF, 0xFF, 0xFF, 0x7F, 0x01]), Ok((MAX_DELTA_TIME, 4)));
    assert_eq!(read_delta_time(&[0x80, 0x00]), Ok((0, 2)));
    assert_eq!(read_delta_time(&[0x80, 0x80, 0x80, 0x01]), Ok((1, 4)));
}

#[test]
fn delta_time_errors() {
    assert_eq!(read_delta_time(&[]), Err(DeltaError::UnexpectedEnd));
    assert_eq!(read_delta_time(&[0x80]), Err(DeltaError::UnexpectedEnd));
    assert_eq!(read_delta_time(&[0x81, 0x82, 0x83]), Err(DeltaError::UnexpectedEnd));
    assert_eq!(read_delta_time(&[0x81, 0x82, 0x83, 0x84]), Err(DeltaError::TooLong));
    assert_eq!(read_delta_time(&[0xFF, 0xFF, 0xFF, 0xFF, 0x00]), Err(DeltaError::TooLong));
}

#[test]
fn delta_time_round_trip() {
    let mut values: Vec<u32> = vec![0, 1, 0x7F, 0x80, 0x3FFF, 0x4000, 0x1F_FFFF, 0x20_0000, MAX_DELTA_TIME];
    let mut value: u32 = 3;
    while value < MAX_DELTA_TIME {
        values.push(value);
        value = value * 5 + 1;
    }
    for value in values {
        let mut out = vec![0xAA];
        write_delta_time(value, &mut out);
        assert_eq!(out[0], 0xAA);
        let width = out.len() - 1;
        assert_eq!(read_delta_time(&out[1..]), Ok((value, width)));
        out.push(0x85);
        assert_eq!(read_delta_time(&out[1..]), Ok((value, width)));
    }
}

#[test]
fn track_of_two_events() {
    let data = vec![0x00, 0x90, 0x3C, 0x7F, 0x81, 0x00, 0xC1, 0x05];
    let expected = TrackChunk {
        events: vec![
            TrackEvent {
                delta_time: 0,
                event: MidiEvent::NoteOn(0, NoteMeta { key: 60, velocity: 127 }),
            },
            TrackEvent { delta_time: 128, event: MidiEvent::ProgramChange(1, 5) },
        ],
    };
    assert_eq!(TrackChunk::try_from(data.clone()), Ok(expected.clone()));
    assert!(expected.is_encodable());
    assert_eq!(expected.to_midi_bytes(), data);
}

#[test]
fn empty_track() {
    assert_eq!(TrackChunk::try_from(Vec::new()), Ok(TrackChunk { events: Vec::new() }));
    assert_eq!(TrackChunk { events: Vec::new() }.to_midi_bytes(), Vec::<u8>::new());
}

#[test]
fn track_errors_name_the_offset() {
    assert_eq!(
        TrackChunk::try_from(vec![0x00, 0x90, 0x3C, 0x7F, 0x80]),
        Err(TrackError::UnexpectedEnd { offset: 4 })
    );
    assert_eq!(
        TrackChunk::try_from(vec![0x00, 0x90, 0x3C, 0x7F, 0x10]),
        Err(TrackError::UnexpectedEnd { offset: 5 })
    );
    assert_eq!(
        TrackChunk::try_from(vec![0x00, 0x90, 0x3C, 0x7F, 0x10, 0x90, 0x3C]),
        Err(TrackError::UnexpectedEnd { offset: 5 })
    );
    assert_eq!(
        TrackChunk::try_from(vec![0x00, 0x90, 0x3C, 0x7F, 0x81, 0x10, 0x3C, 0x7F]),
        Err(TrackError::UnsupportedStatus { offset: 6, code: UnsupportedStatusCode(0x3) })
    );
    assert_eq!(
        TrackChunk::try_from(vec![0x00, 0xFF, 0x2F, 0x00]),
        Err(TrackError::UnsupportedStatus { offset: 1, code: UnsupportedStatusCode(0xF) })
    );
    assert_eq!(
        TrackChunk::try_from(vec![0x00, 0xC0, 0x01, 0x80, 0x80, 0x80, 0x80, 0x00]),
        Err(TrackError::DeltaTimeTooLong { offset: 3 })
    );
}

#[test]
fn one_bad_event_fails_the_whole_track() {
    let mut data = vec![0x00, 0x90, 0x3C, 0x7F, 0x00, 0x80, 0x3C, 0x00];
    data.extend([0x00, 0x70, 0x00, 0x00]);
    data.extend([0x00, 0x90, 0x3C, 0x7F]);
    assert_eq!(
        TrackChunk::try_from(data),
        Err(TrackError::UnsupportedStatus { offset: 9, code: UnsupportedStatusCode(0x7) })
    );
}

#[test]
fn track_round_trip() {
    let mut events = Vec::new();
    let deltas = [0u32, 1, 0x7F, 0x80, 0x3FFF, 0x4000, 0x1F_FFFF, 0x20_0000, MAX_DELTA_TIME];
    for (i, delta_time) in deltas.into_iter().enumerate() {
        let channel = (i % 16) as u8;
        events.push(TrackEvent {
            delta_time,
            event: MidiEvent::NoteOn(channel, NoteMeta { key: 60, velocity: 0xFF }),
        });
        events.push(TrackEvent {
            delta_time,
            event: MidiEvent::ControlChange(
                channel,
                ControlChange { controller_number: 7, new_value: 100 },
            ),
        });
        events.push(TrackEvent { delta_time, event: MidiEvent::ChannelPressure(channel, 0x80) });
        events.push(TrackEvent { delta_time, event: MidiEvent::PitchWheelChange(channel, 0x2ABC) });
    }
    let track = TrackChunk { events };
    assert!(track.is_encodable());
    let bytes = track.to_midi_bytes();
    assert_eq!(TrackChunk::try_from(bytes), Ok(track));
}

#[test]
fn delta_times_above_the_limit_are_not_encodable() {
    let event = MidiEvent::ProgramChange(0, 0);
    let fine = TrackChunk { events: vec![TrackEvent { delta_time: MAX_DELTA_TIME, event }] };
    assert!(fine.is_encodable());
    let over = TrackChunk {
        events: vec![
            TrackEvent { delta_time: 0, event },
            TrackEvent { delta_time: MAX_DELTA_TIME + 1, event },
        ],
    };
    assert!(!over.is_encodable());
}
