//! Track chunks: a sequence of channel events, each preceded by the time
//! that passed since the event before it.
//!
//! A delta time is a variable-length quantity: up to four bytes, each of
//! which carries seven bits, most significant first; every byte but the last
//! has its top bit set. Each event carries its own status byte.

use vstd::prelude::*;
use vstd::slice::slice_subrange;
use crate::chunk::track::event::{
    parse_event, lemma_event_round_trip, MidiEvent, Parsed, EventError, UnsupportedStatusCode,
};

pub mod event;

verus! {

/// The largest delta time: the largest number of twenty-eight bits.
pub const MAX_DELTA_TIME: u32 = 0x0FFF_FFFF;

/// The largest number of bytes of a delta time.
pub const MAX_DELTA_BYTES: usize = 4;

/// One event of a track and the time since the event before it.
#[derive(Debug, Clone, Copy, PartialEq, Eq, Structural)]
pub struct TrackEvent {
    /// The time since the previous event, in ticks.
    pub delta_time: u32,
    /// The channel message.
    pub event: MidiEvent,
}

/// A parsed track chunk: its events in the order of the payload.
#[derive(Debug, Clone, PartialEq, Eq)]
pub struct TrackChunk {
    /// The events of the track.
    pub events: Vec<TrackEvent>,
}

/// Why the payload of a track chunk could not be parsed. Every offset counts
/// bytes from the start of the payload.
#[derive(Debug, Clone, Copy, PartialEq, Eq, Structural)]
pub enum TrackError {
    /// The payload ends inside the delta time or the event that starts at
    /// `offset`.
    UnexpectedEnd { offset: usize },
    /// The byte at `offset` stands where a status byte must stand, and its
    /// high half selects no channel message.
    UnsupportedStatus { offset: usize, code: UnsupportedStatusCode },
    /// The delta time that starts at `offset` does not end within four bytes.
    DeltaTimeTooLong { offset: usize },
}

/// What the front of a byte sequence holds when it is read as a delta time.
pub enum ParsedDelta {
    /// A delta time and the number of bytes that hold it.
    Value(u32, nat),
    /// The sequence ends before the delta time does.
    Truncated,
    /// The first four bytes all have their top bit set.
    TooLong,
}

/// The number that the low seven bits of the first `count` bytes spell, most
/// significant byte first.
pub open spec fn quantity(bytes: Seq<u8>, count: nat) -> nat
    decreases count,
{
    if count == 0 {
        0
    } else {
        (128 * quantity(bytes, (count - 1) as nat) + bytes[count - 1] % 128) as nat
    }
}

/// Reads a delta time from the front of `bytes`: it ends with the first byte
/// whose top bit is clear, which must be among the first four.
pub open spec fn parse_delta(bytes: Seq<u8>) -> ParsedDelta {
    if bytes.len() >= 1 && bytes[0] < 0x80 {
        ParsedDelta::Value(quantity(bytes, 1) as u32, 1)
    } else if bytes.len() >= 2 && bytes[1] < 0x80 {
        ParsedDelta::Value(quantity(bytes, 2) as u32, 2)
    } else if bytes.len() >= 3 && bytes[2] < 0x80 {
        ParsedDelta::Value(quantity(bytes, 3) as u32, 3)
    } else if bytes.len() >= 4 && bytes[3] < 0x80 {
        ParsedDelta::Value(quantity(bytes, 4) as u32, 4)
    } else if bytes.len() >= 4 {
        ParsedDelta::TooLong
    } else {
        ParsedDelta::Truncated
    }
}

/// The bytes of a delta time: as few as hold it, seven bits each, most
/// significant first, the top bit set on every byte but the last.
pub open spec fn delta_wire(value: u32) -> Seq<u8>
    recommends
        value <= MAX_DELTA_TIME,
{
    let last = (value % 128) as u8;
    let third = (value / 0x80 % 128 + 128) as u8;
    let second = (value / 0x4000 % 128 + 128) as u8;
    let first = (value / 0x20_0000 % 128 + 128) as u8;
    if value < 0x80 {
        seq![last]
    } else if value < 0x4000 {
        seq![third, last]
    } else if value < 0x20_0000 {
        seq![second, third, last]
    } else {
        seq![first, second, third, last]
    }
}

/// Why no delta time could be read from a slice of bytes.
#[derive(Debug, Clone, Copy, PartialEq, Eq, Structural)]
pub enum DeltaError {
    /// The slice ends before the delta time does.
    UnexpectedEnd,
    /// The first four bytes all have their top bit set.
    TooLong,
}

/// Reads a delta time from the front of a slice and says how many bytes it
/// took.
pub fn read_delta_time(bytes: &[u8]) -> (r: Result<(u32, usize), DeltaError>)
    ensures
        match parse_delta(bytes@) {
            ParsedDelta::Value(value, taken) => r == Ok::<(u32, usize), DeltaError>(
                (value, taken as usize),
            ),
            ParsedDelta::Truncated => r == Err::<(u32, usize), DeltaError>(
                DeltaError::UnexpectedEnd,
            ),
            ParsedDelta::TooLong => r == Err::<(u32, usize), DeltaError>(DeltaError::TooLong),
        },
        r matches Ok((value, taken)) ==> value <= MAX_DELTA_TIME && 1 <= taken <= MAX_DELTA_BYTES
            && taken <= bytes@.len(),
{
    let mut value: u32 = 0;
    let mut taken: usize = 0;
    while taken < MAX_DELTA_BYTES && taken < bytes.len()
        invariant
            taken <= MAX_DELTA_BYTES,
            taken <= bytes@.len(),
            value == quantity(bytes@, taken as nat),
            taken == 0 ==> value == 0,
            taken == 1 ==> value < 0x80,
            taken == 2 ==> value < 0x4000,
            taken == 3 ==> value < 0x20_0000,
            forall|i: int| 0 <= i < taken ==> bytes@[i] >= 0x80,
        decreases MAX_DELTA_BYTES - taken,
    {
        let byte: u8 = bytes[taken];
        let ghost before = value;
        assert(before < 0x20_0000 ==> ((before << 7) | ((byte & 0x7F) as u32)) == 128 * before
            + byte % 128 && (byte & 0x80 == 0 <==> byte < 0x80)) by (bit_vector);
        value = (value << 7) | ((byte & 0x7F) as u32);
        taken = taken + 1;
        proof {
            reveal_with_fuel(quantity, 5);
        }
        if byte & 0x80 == 0 {
            return Ok((value, taken));
        }
    }
    if taken == MAX_DELTA_BYTES {
        Err(DeltaError::TooLong)
    } else {
        Err(DeltaError::UnexpectedEnd)
    }
}

/// Appends the bytes of a delta time to `out`.
pub fn write_delta_time(value: u32, out: &mut Vec<u8>)
    requires
        value <= MAX_DELTA_TIME,
    ensures
        final(out)@ == old(out)@ + delta_wire(value),
{
    assert(value <= 0x0FFF_FFFF ==> (((value >> 21) & 0x7F) as u8) | 0x80 == value / 0x20_0000
        % 128 + 128 && (((value >> 14) & 0x7F) as u8) | 0x80 == value / 0x4000 % 128 + 128 && (((
    value >> 7) & 0x7F) as u8) | 0x80 == value / 0x80 % 128 + 128 && (value & 0x7F) as u8 == value
        % 128) by (bit_vector);
    if value >= 0x20_0000 {
        out.push((((value >> 21) & 0x7F) as u8) | 0x80);
    }
    if value >= 0x4000 {
        out.push((((value >> 14) & 0x7F) as u8) | 0x80);
    }
    if value >= 0x80 {
        out.push((((value >> 7) & 0x7F) as u8) | 0x80);
    }
    out.push((value & 0x7F) as u8);
    assert(out@ =~= old(out)@ + delta_wire(value));
}

/// Reading the bytes of a delta time gives the delta time back, whatever
/// bytes follow them, and takes exactly those bytes.
pub proof fn lemma_delta_round_trip(value: u32, rest: Seq<u8>)
    requires
        value <= MAX_DELTA_TIME,
    ensures
        parse_delta(delta_wire(value) + rest) == ParsedDelta::Value(
            value,
            delta_wire(value).len(),
        ),
{
    let bytes = delta_wire(value) + rest;
    let last = value % 128;
    let third = value / 0x80 % 128;
    let second = value / 0x4000 % 128;
    let first = value / 0x20_0000 % 128;
    assert(value <= 0x0FFF_FFFF ==> (value / 0x20_0000 % 128) * 0x20_0000 + (value / 0x4000 % 128)
        * 0x4000 + (value / 0x80 % 128) * 0x80 + value % 128 == value) by (bit_vector);
    assert(value < 0x20_0000 ==> value / 0x20_0000 % 128 == 0) by (bit_vector);
    assert(value < 0x4000 ==> value / 0x4000 % 128 == 0) by (bit_vector);
    assert(value < 0x80 ==> value / 0x80 % 128 == 0) by (bit_vector);
    reveal_with_fuel(quantity, 5);
    if value < 0x80 {
        assert(bytes[0] == last);
        assert(quantity(bytes, 1) == last);
    } else if value < 0x4000 {
        assert(bytes[0] == third + 128);
        assert(bytes[1] == last);
        assert(quantity(bytes, 1) == third);
        assert(quantity(bytes, 2) == 128 * third + last);
    } else if value < 0x20_0000 {
        assert(bytes[0] == second + 128);
        assert(bytes[1] == third + 128);
        assert(bytes[2] == last);
        assert(quantity(bytes, 1) == second);
        assert(quantity(bytes, 2) == 128 * second + third);
        assert(quantity(bytes, 3) == 128 * (128 * second + third) + last);
    } else {
        assert(bytes[0] == first + 128);
        assert(bytes[1] == second + 128);
        assert(bytes[2] == third + 128);
        assert(bytes[3] == last);
        assert(quantity(bytes, 1) == first);
        assert(quantity(bytes, 2) == 128 * first + second);
        assert(quantity(bytes, 3) == 128 * (128 * first + second) + third);
        assert(quantity(bytes, 4) == 128 * (128 * (128 * first + second) + third) + last);
    }
}

impl TrackEvent {
    /// An event of a track is well formed when its delta time has at most
    /// twenty-eight bits and its message is well formed.
    pub open spec fn well_formed(self) -> bool {
        &&& self.delta_time <= MAX_DELTA_TIME
        &&& self.event.well_formed()
    }

    /// The bytes of this event in a track: the delta time, then the message.
    pub open spec fn wire(self) -> Seq<u8>
        recommends
            self.delta_time <= MAX_DELTA_TIME,
    {
        delta_wire(self.delta_time) + self.event.wire()
    }

    /// Reads one event of a track from the front of a slice and says how
    /// many bytes it took. The slice is what remains of a payload of which
    /// `offset` bytes have been read; errors count their offsets from the
    /// start of that payload.
    pub fn from_midi_bytes(bytes: &[u8], offset: usize) -> (r: Result<
        (TrackEvent, usize),
        TrackError,
    >)
        requires
            offset + bytes@.len() <= usize::MAX,
        ensures
            match parse_track_event(bytes@, offset as nat) {
                Ok((item, taken)) => r == Ok::<(TrackEvent, usize), TrackError>(
                    (item, taken as usize),
                ),
                Err(error) => r == Err::<(TrackEvent, usize), TrackError>(error),
            },
            r matches Ok((item, taken)) ==> item.well_formed() && 3 <= taken <= bytes@.len(),
    {
        let (delta_time, width) = match read_delta_time(bytes) {
            Ok(found) => found,
            Err(DeltaError::UnexpectedEnd) => {
                return Err(TrackError::UnexpectedEnd { offset });
            },
            Err(DeltaError::TooLong) => {
                return Err(TrackError::DeltaTimeTooLong { offset });
            },
        };
        let tail: &[u8] = slice_subrange(bytes, width, bytes.len());
        assert(tail@ =~= bytes@.skip(width as int));
        match MidiEvent::from_midi_bytes(tail) {
            Ok((event, length)) => Ok((TrackEvent { delta_time, event }, width + length)),
            Err(EventError::UnexpectedEnd) => Err(
                TrackError::UnexpectedEnd { offset: offset + width },
            ),
            Err(EventError::UnsupportedStatus(code)) => Err(
                TrackError::UnsupportedStatus { offset: offset + width, code },
            ),
        }
    }
}

/// The payload of a track chunk that holds `events`.
pub open spec fn track_wire(events: Seq<TrackEvent>) -> Seq<u8>
    decreases events.len(),
{
    if events.len() == 0 {
        Seq::empty()
    } else {
        events[0].wire() + track_wire(events.skip(1))
    }
}

/// Whether every event of `events` can be encoded: no delta time has more
/// than twenty-eight bits.
pub open spec fn encodable(events: Seq<TrackEvent>) -> bool {
    forall|i: int| 0 <= i < events.len() ==> (#[trigger] events[i]).delta_time <= MAX_DELTA_TIME
}

/// Whether every event of `events` is well formed.
pub open spec fn all_well_formed(events: Seq<TrackEvent>) -> bool {
    forall|i: int| 0 <= i < events.len() ==> (#[trigger] events[i]).well_formed()
}

/// `events` in front of what `tail` holds, or the error of `tail`.
pub open spec fn prepend(events: Seq<TrackEvent>, tail: Result<Seq<TrackEvent>, TrackError>)
    -> Result<Seq<TrackEvent>, TrackError> {
    match tail {
        Ok(rest) => Ok(events + rest),
        Err(error) => Err(error),
    }
}

/// Reads one event of a track from the front of `bytes`: a delta time
/// followed directly by a message. `bytes` is what remains of a payload of
/// which `offset` bytes have been read. The result holds the event and the
/// number of bytes that it took.
pub open spec fn parse_track_event(bytes: Seq<u8>, offset: nat) -> Result<
    (TrackEvent, nat),
    TrackError,
> {
    match parse_delta(bytes) {
        ParsedDelta::Truncated => Err(TrackError::UnexpectedEnd { offset: offset as usize }),
        ParsedDelta::TooLong => Err(TrackError::DeltaTimeTooLong { offset: offset as usize }),
        ParsedDelta::Value(delta_time, width) => match parse_event(bytes.skip(width as int)) {
            Parsed::Truncated => Err(
                TrackError::UnexpectedEnd { offset: (offset + width) as usize },
            ),
            Parsed::Unsupported(code) => Err(
                TrackError::UnsupportedStatus {
                    offset: (offset + width) as usize,
                    code: UnsupportedStatusCode(code),
                },
            ),
            Parsed::Event(event) => Ok(
                (TrackEvent { delta_time, event }, width + 1 + event.kind_spec().trailing_spec()),
            ),
        },
    }
}

/// Reads events from `bytes` until none are left. `bytes` is what remains
/// of a payload of which `offset` bytes have been read. The first event
/// that cannot be read ends the reading with its error.
pub open spec fn parse_events(bytes: Seq<u8>, offset: nat) -> Result<Seq<TrackEvent>, TrackError>
    decreases bytes.len(),
{
    if bytes.len() == 0 {
        Ok(Seq::empty())
    } else {
        match parse_track_event(bytes, offset) {
            Err(error) => Err(error),
            Ok((item, taken)) => prepend(
                seq![item],
                parse_events(bytes.skip(taken as int), offset + taken),
            ),
        }
    }
}

/// Reads the whole payload of a track chunk.
pub open spec fn parse_track(data: Seq<u8>) -> Result<Seq<TrackEvent>, TrackError> {
    parse_events(data, 0)
}

impl View for TrackChunk {
    type V = Seq<TrackEvent>;

    open spec fn view(&self) -> Seq<TrackEvent> {
        self.events@
    }
}

impl TrackChunk {
    /// Whether every event of this track is well formed.
    pub open spec fn well_formed(self) -> bool {
        all_well_formed(self@)
    }

    /// Parses the payload of a track chunk into its events. The payload is
    /// read to its end; the first delta time or message that cannot be read
    /// fails the whole track.
    pub fn try_from(data: Vec<u8>) -> (r: Result<TrackChunk, TrackError>)
        ensures
            match r {
                Ok(track) => parse_track(data@) == Ok::<Seq<TrackEvent>, TrackError>(track@),
                Err(error) => parse_track(data@) == Err::<Seq<TrackEvent>, TrackError>(error),
            },
            r matches Ok(track) ==> track.well_formed(),
    {
        let bytes: &[u8] = data.as_slice();
        let mut events: Vec<TrackEvent> = Vec::new();
        let mut pos: usize = 0;
        proof {
            assert(data@.skip(0) =~= data@);
            lemma_prepend_nothing(parse_track(data@));
        }
        while pos < bytes.len()
            invariant
                pos <= bytes@.len(),
                bytes@ == data@,
                parse_track(data@) == prepend(
                    events@,
                    parse_events(data@.skip(pos as int), pos as nat),
                ),
                all_well_formed(events@),
            decreases bytes@.len() - pos,
        {
            let rest: &[u8] = slice_subrange(bytes, pos, bytes.len());
            assert(rest@ =~= data@.skip(pos as int));
            match TrackEvent::from_midi_bytes(rest, pos) {
                Err(error) => {
                    return Err(error);
                },
                Ok((item, taken)) => {
                    proof {
                        assert(rest@.skip(taken as int) =~= data@.skip(pos + taken));
                        lemma_prepend_twice(
                            events@,
                            seq![item],
                            parse_events(data@.skip(pos + taken), (pos + taken) as nat),
                        );
                        assert(events@ + seq![item] =~= events@.push(item));
                    }
                    events.push(item);
                    pos = pos + taken;
                },
            }
        }
        proof {
            assert(events@ + Seq::<TrackEvent>::empty() =~= events@);
        }
        Ok(TrackChunk { events })
    }

    /// Whether every event of this track can be encoded.
    pub fn is_encodable(&self) -> (b: bool)
        ensures
            b == encodable(self@),
    {
        let mut i: usize = 0;
        while i < self.events.len()
            invariant
                i <= self.events@.len(),
                forall|j: int| 0 <= j < i ==> (#[trigger] self.events@[j]).delta_time
                    <= MAX_DELTA_TIME,
            decreases self.events@.len() - i,
        {
            if self.events[i].delta_time > MAX_DELTA_TIME {
                return false;
            }
            i = i + 1;
        }
        true
    }

    /// Encodes the payload of this track chunk: each event as its delta time
    /// followed by its message.
    pub fn to_midi_bytes(&self) -> (bytes: Vec<u8>)
        requires
            encodable(self@),
        ensures
            bytes@ == track_wire(self@),
            self.well_formed() ==> parse_track(bytes@) == Ok::<Seq<TrackEvent>, TrackError>(
                self@,
            ),
    {
        proof {
            if self.well_formed() {
                lemma_track_round_trip(self@);
            }
        }
        let mut bytes: Vec<u8> = Vec::new();
        let mut i: usize = 0;
        proof {
            assert(self@.skip(0) =~= self@);
            assert(bytes@ + track_wire(self@) =~= track_wire(self@));
        }
        while i < self.events.len()
            invariant
                i <= self.events@.len(),
                encodable(self@),
                bytes@ + track_wire(self@.skip(i as int)) == track_wire(self@),
            decreases self.events@.len() - i,
        {
            let item: TrackEvent = self.events[i];
            let ghost before = bytes@;
            write_delta_time(item.delta_time, &mut bytes);
            let mut message: Vec<u8> = item.event.to_midi_bytes();
            bytes.append(&mut message);
            proof {
                assert(self@.skip(i as int)[0] == item);
                assert(self@.skip(i as int).skip(1) =~= self@.skip(i + 1));
                assert(bytes@ =~= before + item.wire());
                assert(bytes@ + track_wire(self@.skip(i + 1)) =~= before + track_wire(
                    self@.skip(i as int),
                ));
            }
            i = i + 1;
        }
        proof {
            assert(self@.skip(i as int) =~= Seq::<TrackEvent>::empty());
            assert(bytes@ + Seq::<u8>::empty() =~= bytes@);
        }
        bytes
    }
}

/// Putting nothing in front of a result leaves it as it is.
pub proof fn lemma_prepend_nothing(tail: Result<Seq<TrackEvent>, TrackError>)
    ensures
        prepend(Seq::empty(), tail) == tail,
{
    if let Ok(rest) = tail {
        assert(Seq::<TrackEvent>::empty() + rest =~= rest);
    }
}

/// Putting `second` and then `first` in front of a result is putting
/// `first + second` in front of it.
pub proof fn lemma_prepend_twice(
    first: Seq<TrackEvent>,
    second: Seq<TrackEvent>,
    tail: Result<Seq<TrackEvent>, TrackError>,
)
    ensures
        prepend(first, prepend(second, tail)) == prepend(first + second, tail),
{
    if let Ok(rest) = tail {
        assert(first + (second + rest) =~= (first + second) + rest);
    }
}

/// Parsing the payload that a track of well-formed events encodes to gives
/// the events back.
pub proof fn lemma_track_round_trip(events: Seq<TrackEvent>)
    requires
        all_well_formed(events),
    ensures
        parse_track(track_wire(events)) == Ok::<Seq<TrackEvent>, TrackError>(events),
{
    lemma_events_round_trip(events, 0);
}

/// Reading the encoding of well-formed events gives the events back,
/// however many bytes of the payload came before them.
pub proof fn lemma_events_round_trip(events: Seq<TrackEvent>, offset: nat)
    requires
        all_well_formed(events),
    ensures
        parse_events(track_wire(events), offset) == Ok::<Seq<TrackEvent>, TrackError>(events),
    decreases events.len(),
{
    if events.len() > 0 {
        let head = events[0];
        let tail = events.skip(1);
        let tail_wire = track_wire(tail);
        let bytes = track_wire(events);
        let delta = delta_wire(head.delta_time);
        let width = delta.len();
        let taken = width + head.event.wire().len();
        assert(head.well_formed());
        assert(all_well_formed(tail)) by {
            assert forall|i: int| 0 <= i < tail.len() implies (#[trigger] tail[i]).well_formed() by {
                assert(tail[i] == events[i + 1]);
            }
        }
        assert(bytes =~= delta + (head.event.wire() + tail_wire));
        lemma_delta_round_trip(head.delta_time, head.event.wire() + tail_wire);
        assert(bytes.skip(width as int) =~= head.event.wire() + tail_wire);
        lemma_event_round_trip(head.event, tail_wire);
        assert(bytes.skip(taken as int) =~= tail_wire);
        lemma_events_round_trip(tail, offset + taken);
        assert(seq![head] + tail =~= events);
        assert(parse_delta(bytes) == ParsedDelta::Value(head.delta_time, width));
        assert(parse_event(bytes.skip(width as int)) == Parsed::Event(head.event));
        assert(parse_track_event(bytes, offset) == Ok::<(TrackEvent, nat), TrackError>(
            (head, taken),
        ));
        assert(parse_events(bytes.skip(taken as int), offset + taken) == Ok::<
            Seq<TrackEvent>,
            TrackError,
        >(tail));
    } else {
        assert(events =~= Seq::<TrackEvent>::empty());
    }
}

} // verus!
