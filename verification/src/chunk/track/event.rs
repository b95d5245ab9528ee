//! MIDI channel events and their wire encoding.
//!
//! An event on the wire is one status byte followed by one or two data
//! bytes. The high half of the status byte selects the kind of message and
//! with it the number of data bytes; the low half is the channel.

use vstd::prelude::*;
use vstd::std_specs::iter::IteratorSpec;

verus! {

/// Key and velocity of a note message.
#[derive(Debug, Clone, Copy, PartialEq, Eq, Structural)]
pub struct NoteMeta {
    /// Note key.
    pub key: u8,
    /// Note velocity.
    pub velocity: u8,
}

/// Controller number and new value of a control change.
#[derive(Debug, Clone, Copy, PartialEq, Eq, Structural)]
pub struct ControlChange {
    /// Controller number.
    pub controller_number: u8,
    /// New value.
    pub new_value: u8,
}

/// A MIDI channel message. The first field of every variant is the channel.
#[derive(Debug, Clone, Copy, PartialEq, Eq, Structural)]
pub enum MidiEvent {
    /// A note was released.
    NoteOff(u8, NoteMeta),
    /// A note was depressed.
    NoteOn(u8, NoteMeta),
    /// Pressure on a single key after it was depressed.
    PolyphonicKeyPressure(u8, NoteMeta),
    /// A controller such as a pedal or a lever changed its value.
    ControlChange(u8, ControlChange),
    /// The patch number changed.
    ProgramChange(u8, u8),
    /// Pressure on the channel as a whole.
    ChannelPressure(u8, u8),
    /// The pitch wheel moved; the position is a fourteen-bit value.
    PitchWheelChange(u8, u16),
}

/// The error for a status byte whose high half selects no channel message.
/// It carries that high half.
#[derive(Debug, Clone, Copy, PartialEq, Eq, Structural)]
pub struct UnsupportedStatusCode(pub u8);

/// The kind of a channel message, as the high half of a status byte selects it.
#[derive(Debug, Clone, Copy, PartialEq, Eq, Structural)]
pub enum StatusKind {
    /// Selector `0x8`.
    NoteOff,
    /// Selector `0x9`.
    NoteOn,
    /// Selector `0xA`.
    PolyphonicKeyPressure,
    /// Selector `0xB`.
    ControlChange,
    /// Selector `0xC`.
    ProgramChange,
    /// Selector `0xD`.
    ChannelPressure,
    /// Selector `0xE`.
    PitchWheelChange,
}

/// Why no message could be read from a slice of bytes.
#[derive(Debug, Clone, Copy, PartialEq, Eq, Structural)]
pub enum EventError {
    /// The slice ends before the message does.
    UnexpectedEnd,
    /// The high half of the status byte selects no channel message.
    UnsupportedStatus(UnsupportedStatusCode),
}

/// A source of bytes that is handed to the decoder.
pub struct IteratorWrapper<T>(pub T);

/// What the front of a byte sequence holds when it is read as one message.
pub enum Parsed {
    /// A whole message.
    Event(MidiEvent),
    /// A status byte whose high half, carried here, selects no channel message.
    Unsupported(u8),
    /// Fewer bytes than the message needs.
    Truncated,
}

/// The largest channel number.
pub const MAX_CHANNEL: u8 = 0x0F;

/// The largest pitch wheel position.
pub const MAX_PITCH: u16 = 0x3FFF;

impl StatusKind {
    /// The four-bit selector of this kind.
    pub open spec fn selector_spec(self) -> u8 {
        match self {
            StatusKind::NoteOff => 0x8,
            StatusKind::NoteOn => 0x9,
            StatusKind::PolyphonicKeyPressure => 0xA,
            StatusKind::ControlChange => 0xB,
            StatusKind::ProgramChange => 0xC,
            StatusKind::ChannelPressure => 0xD,
            StatusKind::PitchWheelChange => 0xE,
        }
    }

    /// The kind that a selector stands for, if it stands for one.
    pub open spec fn of_selector(selector: u8) -> Option<StatusKind> {
        if selector == 0x8 {
            Some(StatusKind::NoteOff)
        } else if selector == 0x9 {
            Some(StatusKind::NoteOn)
        } else if selector == 0xA {
            Some(StatusKind::PolyphonicKeyPressure)
        } else if selector == 0xB {
            Some(StatusKind::ControlChange)
        } else if selector == 0xC {
            Some(StatusKind::ProgramChange)
        } else if selector == 0xD {
            Some(StatusKind::ChannelPressure)
        } else if selector == 0xE {
            Some(StatusKind::PitchWheelChange)
        } else {
            None
        }
    }

    /// The number of data bytes that follow a status byte of this kind.
    pub open spec fn trailing_spec(self) -> nat {
        match self {
            StatusKind::ProgramChange | StatusKind::ChannelPressure => 1,
            _ => 2,
        }
    }

    /// The four-bit selector of this kind.
    #[verifier::when_used_as_spec(selector_spec)]
    pub fn selector(self) -> (s: u8)
        ensures
            s == self.selector_spec(),
            0x8 <= s <= 0xE,
    {
        match self {
            StatusKind::NoteOff => 0x8,
            StatusKind::NoteOn => 0x9,
            StatusKind::PolyphonicKeyPressure => 0xA,
            StatusKind::ControlChange => 0xB,
            StatusKind::ProgramChange => 0xC,
            StatusKind::ChannelPressure => 0xD,
            StatusKind::PitchWheelChange => 0xE,
        }
    }

    /// The number of data bytes that follow a status byte of this kind.
    pub fn trailing_bytes(self) -> (n: usize)
        ensures
            n == self.trailing_spec(),
    {
        match self {
            StatusKind::ProgramChange | StatusKind::ChannelPressure => 1,
            _ => 2,
        }
    }
}

/// The status byte of a message of `kind` on `channel`: the selector in the
/// high half, the low four bits of the channel in the low half.
pub open spec fn status_byte(kind: StatusKind, channel: u8) -> u8 {
    (16 * kind.selector_spec() + channel % 16) as u8
}

/// Every selector stands for the kind it was taken from, and no selector
/// outside `0x8..=0xE` stands for a kind.
pub proof fn lemma_selector_of_kind(kind: StatusKind)
    ensures
        StatusKind::of_selector(kind.selector_spec()) == Some(kind),
        forall|s: u8| (StatusKind::of_selector(s) is Some) <==> 0x8 <= s <= 0xE,
{
}

/// Splits a status byte into the kind of message and the channel. The byte
/// is refused, with its high half, when that half selects no channel message.
pub fn decode_status(byte: u8) -> (r: Result<(StatusKind, u8), UnsupportedStatusCode>)
    ensures
        match StatusKind::of_selector(byte / 16) {
            Some(kind) => r == Ok::<(StatusKind, u8), UnsupportedStatusCode>((kind, byte % 16)),
            None => r == Err::<(StatusKind, u8), UnsupportedStatusCode>(
                UnsupportedStatusCode(byte / 16),
            ),
        },
        r is Ok <==> 0x80 <= byte < 0xF0,
{
    let channel: u8 = byte & 0x0F;
    let selector: u8 = byte >> 4;
    assert(byte & 0x0F == byte % 16) by (bit_vector);
    assert(byte >> 4 == byte / 16) by (bit_vector);
    match selector {
        0x8 => Ok((StatusKind::NoteOff, channel)),
        0x9 => Ok((StatusKind::NoteOn, channel)),
        0xA => Ok((StatusKind::PolyphonicKeyPressure, channel)),
        0xB => Ok((StatusKind::ControlChange, channel)),
        0xC => Ok((StatusKind::ProgramChange, channel)),
        0xD => Ok((StatusKind::ChannelPressure, channel)),
        0xE => Ok((StatusKind::PitchWheelChange, channel)),
        code => Err(UnsupportedStatusCode(code)),
    }
}

/// Joins a kind of message and a channel into a status byte. Only the low
/// four bits of the channel are used, so the high bit of the result is
/// always set and its high half is the selector of `kind`.
pub fn encode_status(kind: StatusKind, channel: u8) -> (byte: u8)
    ensures
        byte == status_byte(kind, channel),
        byte == (kind.selector_spec() << 4) | (channel & 0x0F),
        byte / 16 == kind.selector_spec(),
        byte % 16 == channel % 16,
        byte >= 0x80,
{
    let selector: u8 = kind.selector();
    let byte: u8 = (selector << 4) | (channel & 0x0F);
    assert(0x8 <= selector <= 0xE ==> (selector << 4) | (channel & 0x0F) == 16 * selector
        + channel % 16) by (bit_vector);
    byte
}

/// The pitch wheel position that two data bytes carry: the first byte gives
/// the low seven bits, the second the high seven; the top bit of each byte is
/// left out.
pub open spec fn pitch_value(first: u8, second: u8) -> u16 {
    (first % 128 + 128 * (second % 128)) as u16
}

/// The first data byte of a pitch wheel position: its low seven bits.
pub open spec fn pitch_first(value: u16) -> u8 {
    (value % 128) as u8
}

/// The second data byte of a pitch wheel position: the seven bits above the
/// low seven.
pub open spec fn pitch_second(value: u16) -> u8 {
    ((value / 128) % 128) as u8
}

/// Joins the two data bytes of a pitch wheel message into the position.
pub fn pitch_from_bytes(first: u8, second: u8) -> (value: u16)
    ensures
        value == pitch_value(first, second),
        value == ((first & 0x7F) as u16) | (((second & 0x7F) as u16) << 7),
        value <= MAX_PITCH,
{
    let low: u16 = (first & 0x7F) as u16;
    let high: u16 = (second & 0x7F) as u16;
    let value: u16 = low | (high << 7);
    assert((((first & 0x7F) as u16) | (((second & 0x7F) as u16) << 7)) == first % 128 + 128 * (
    second % 128)) by (bit_vector);
    value
}

/// Splits a pitch wheel position into its two data bytes, low seven bits
/// first. The top bit of each byte is clear; bits of `value` above the
/// fourteenth are dropped.
pub fn pitch_to_bytes(value: u16) -> (bytes: (u8, u8))
    ensures
        bytes.0 == pitch_first(value),
        bytes.1 == pitch_second(value),
        bytes.0 == (value & 0x7F) as u8,
        bytes.1 == ((value >> 7) & 0x7F) as u8,
        bytes.0 < 0x80,
        bytes.1 < 0x80,
{
    let first: u8 = (value & 0x7F) as u8;
    let second: u8 = ((value >> 7) & 0x7F) as u8;
    assert(value & 0x7F == value % 128) by (bit_vector);
    assert((value >> 7) & 0x7F == (value / 128) % 128) by (bit_vector);
    (first, second)
}

/// Splitting a position of at most fourteen bits and joining the two bytes
/// again gives the position back.
pub proof fn lemma_pitch_round_trip(value: u16)
    requires
        value <= MAX_PITCH,
    ensures
        pitch_value(pitch_first(value), pitch_second(value)) == value,
{
}

impl NoteMeta {
    /// The two data bytes of a note message: key, then velocity.
    pub open spec fn wire(self) -> Seq<u8> {
        seq![self.key, self.velocity]
    }

    /// The two data bytes of a note message: key, then velocity.
    pub fn to_midi_bytes(self) -> (bytes: Vec<u8>)
        ensures
            bytes@ == self.wire(),
    {
        let mut bytes: Vec<u8> = Vec::new();
        bytes.push(self.key);
        bytes.push(self.velocity);
        assert(bytes@ =~= self.wire());
        bytes
    }
}

impl ControlChange {
    /// The two data bytes of a control change: controller number, then value.
    pub open spec fn wire(self) -> Seq<u8> {
        seq![self.controller_number, self.new_value]
    }

    /// The two data bytes of a control change: controller number, then value.
    pub fn to_midi_bytes(self) -> (bytes: Vec<u8>)
        ensures
            bytes@ == self.wire(),
    {
        let mut bytes: Vec<u8> = Vec::new();
        bytes.push(self.controller_number);
        bytes.push(self.new_value);
        assert(bytes@ =~= self.wire());
        bytes
    }
}

impl MidiEvent {
    /// The kind of this message.
    pub open spec fn kind_spec(self) -> StatusKind {
        match self {
            MidiEvent::NoteOff(..) => StatusKind::NoteOff,
            MidiEvent::NoteOn(..) => StatusKind::NoteOn,
            MidiEvent::PolyphonicKeyPressure(..) => StatusKind::PolyphonicKeyPressure,
            MidiEvent::ControlChange(..) => StatusKind::ControlChange,
            MidiEvent::ProgramChange(..) => StatusKind::ProgramChange,
            MidiEvent::ChannelPressure(..) => StatusKind::ChannelPressure,
            MidiEvent::PitchWheelChange(..) => StatusKind::PitchWheelChange,
        }
    }

    /// The channel field of this message.
    pub open spec fn channel_spec(self) -> u8 {
        match self {
            MidiEvent::NoteOff(channel, _) => channel,
            MidiEvent::NoteOn(channel, _) => channel,
            MidiEvent::PolyphonicKeyPressure(channel, _) => channel,
            MidiEvent::ControlChange(channel, _) => channel,
            MidiEvent::ProgramChange(channel, _) => channel,
            MidiEvent::ChannelPressure(channel, _) => channel,
            MidiEvent::PitchWheelChange(channel, _) => channel,
        }
    }

    /// A message is well formed when its channel has at most four bits and,
    /// for a pitch wheel change, the position has at most fourteen. The data
    /// bytes of the other kinds are not restricted.
    pub open spec fn well_formed(self) -> bool {
        &&& self.channel_spec() <= MAX_CHANNEL
        &&& self matches MidiEvent::PitchWheelChange(_, value) ==> value <= MAX_PITCH
    }

    /// The data bytes of this message, in wire order.
    pub open spec fn payload(self) -> Seq<u8> {
        match self {
            MidiEvent::NoteOff(_, meta) => meta.wire(),
            MidiEvent::NoteOn(_, meta) => meta.wire(),
            MidiEvent::PolyphonicKeyPressure(_, meta) => meta.wire(),
            MidiEvent::ControlChange(_, change) => change.wire(),
            MidiEvent::ProgramChange(_, value) => seq![value],
            MidiEvent::ChannelPressure(_, value) => seq![value],
            MidiEvent::PitchWheelChange(_, value) => seq![pitch_first(value), pitch_second(value)],
        }
    }

    /// The whole message on the wire: the status byte, then the data bytes.
    pub open spec fn wire(self) -> Seq<u8> {
        seq![status_byte(self.kind_spec(), self.channel_spec())] + self.payload()
    }

    /// The kind of this message.
    #[verifier::when_used_as_spec(kind_spec)]
    pub fn kind(self) -> (kind: StatusKind)
        ensures
            kind == self.kind_spec(),
    {
        match self {
            MidiEvent::NoteOff(..) => StatusKind::NoteOff,
            MidiEvent::NoteOn(..) => StatusKind::NoteOn,
            MidiEvent::PolyphonicKeyPressure(..) => StatusKind::PolyphonicKeyPressure,
            MidiEvent::ControlChange(..) => StatusKind::ControlChange,
            MidiEvent::ProgramChange(..) => StatusKind::ProgramChange,
            MidiEvent::ChannelPressure(..) => StatusKind::ChannelPressure,
            MidiEvent::PitchWheelChange(..) => StatusKind::PitchWheelChange,
        }
    }

    /// The channel field of this message.
    #[verifier::when_used_as_spec(channel_spec)]
    pub fn channel(self) -> (channel: u8)
        ensures
            channel == self.channel_spec(),
    {
        match self {
            MidiEvent::NoteOff(channel, _) => channel,
            MidiEvent::NoteOn(channel, _) => channel,
            MidiEvent::PolyphonicKeyPressure(channel, _) => channel,
            MidiEvent::ControlChange(channel, _) => channel,
            MidiEvent::ProgramChange(channel, _) => channel,
            MidiEvent::ChannelPressure(channel, _) => channel,
            MidiEvent::PitchWheelChange(channel, _) => channel,
        }
    }

    /// Whether this message is well formed.
    pub fn is_well_formed(&self) -> (b: bool)
        ensures
            b == self.well_formed(),
    {
        if self.channel() > MAX_CHANNEL {
            return false;
        }
        match self {
            MidiEvent::PitchWheelChange(_, value) => *value <= MAX_PITCH,
            _ => true,
        }
    }

    /// Combines the channel and the selector of this message's kind into the
    /// status byte.
    pub fn get_status_channel_combo(&self) -> (byte: u8)
        ensures
            byte == status_byte(self.kind_spec(), self.channel_spec()),
            byte == (self.kind_spec().selector_spec() << 4) | (self.channel_spec() & 0x0F),
            byte == self.wire()[0],
            byte >= 0x80,
    {
        encode_status(self.kind(), self.channel())
    }

    /// Encodes this message: the status byte, then the data bytes of its
    /// kind. Data bytes are written as they are; a pitch wheel position is
    /// split into two seven-bit bytes, low bits first.
    pub fn to_midi_bytes(self) -> (bytes: Vec<u8>)
        ensures
            bytes@ == self.wire(),
            bytes@.len() == 1 + self.kind_spec().trailing_spec(),
            bytes@[0] >= 0x80,
            self.well_formed() ==> parse_event(bytes@) == Parsed::Event(self),
    {
        proof {
            if self.well_formed() {
                lemma_event_round_trip(self, Seq::empty());
            }
        }
        let status_byte: u8 = self.get_status_channel_combo();
        let mut bytes: Vec<u8> = Vec::new();
        bytes.push(status_byte);
        match self {
            MidiEvent::NoteOff(_, meta)
            | MidiEvent::NoteOn(_, meta)
            | MidiEvent::PolyphonicKeyPressure(_, meta) => {
                bytes.push(meta.key);
                bytes.push(meta.velocity);
            },
            MidiEvent::ControlChange(_, change) => {
                bytes.push(change.controller_number);
                bytes.push(change.new_value);
            },
            MidiEvent::ProgramChange(_, value) | MidiEvent::ChannelPressure(_, value) => {
                bytes.push(value);
            },
            MidiEvent::PitchWheelChange(_, value) => {
                let (first, second) = pitch_to_bytes(value);
                bytes.push(first);
                bytes.push(second);
            },
        }
        assert(bytes@ =~= self.wire());
        bytes
    }
}

/// The message of `kind` on `channel` whose data bytes are the first bytes
/// of `data`.
pub open spec fn assemble(kind: StatusKind, channel: u8, data: Seq<u8>) -> MidiEvent
    recommends
        data.len() >= kind.trailing_spec(),
{
    match kind {
        StatusKind::NoteOff => MidiEvent::NoteOff(
            channel,
            NoteMeta { key: data[0], velocity: data[1] },
        ),
        StatusKind::NoteOn => MidiEvent::NoteOn(
            channel,
            NoteMeta { key: data[0], velocity: data[1] },
        ),
        StatusKind::PolyphonicKeyPressure => MidiEvent::PolyphonicKeyPressure(
            channel,
            NoteMeta { key: data[0], velocity: data[1] },
        ),
        StatusKind::ControlChange => MidiEvent::ControlChange(
            channel,
            ControlChange { controller_number: data[0], new_value: data[1] },
        ),
        StatusKind::ProgramChange => MidiEvent::ProgramChange(channel, data[0]),
        StatusKind::ChannelPressure => MidiEvent::ChannelPressure(channel, data[0]),
        StatusKind::PitchWheelChange => MidiEvent::PitchWheelChange(
            channel,
            pitch_value(data[0], data[1]),
        ),
    }
}

/// Reads one message from the front of `bytes`: the first byte is the status
/// byte, and the data bytes that its kind asks for follow it directly.
pub open spec fn parse_event(bytes: Seq<u8>) -> Parsed {
    if bytes.len() == 0 {
        Parsed::Truncated
    } else {
        match StatusKind::of_selector(bytes[0] / 16) {
            None => Parsed::Unsupported(bytes[0] / 16),
            Some(kind) => if bytes.len() < 1 + kind.trailing_spec() {
                Parsed::Truncated
            } else {
                Parsed::Event(assemble(kind, bytes[0] % 16, bytes.skip(1)))
            },
        }
    }
}

impl MidiEvent {
    /// Builds the message of `kind` on `channel` from its data bytes. For a
    /// kind with one data byte `second` is not used.
    pub fn from_parts(kind: StatusKind, channel: u8, first: u8, second: u8) -> (event: MidiEvent)
        ensures
            event == assemble(kind, channel, seq![first, second]),
            event.kind_spec() == kind,
            event.channel_spec() == channel,
            channel <= MAX_CHANNEL ==> event.well_formed(),
    {
        match kind {
            StatusKind::NoteOff => MidiEvent::NoteOff(
                channel,
                NoteMeta { key: first, velocity: second },
            ),
            StatusKind::NoteOn => MidiEvent::NoteOn(
                channel,
                NoteMeta { key: first, velocity: second },
            ),
            StatusKind::PolyphonicKeyPressure => MidiEvent::PolyphonicKeyPressure(
                channel,
                NoteMeta { key: first, velocity: second },
            ),
            StatusKind::ControlChange => MidiEvent::ControlChange(
                channel,
                ControlChange { controller_number: first, new_value: second },
            ),
            StatusKind::ProgramChange => MidiEvent::ProgramChange(channel, first),
            StatusKind::ChannelPressure => MidiEvent::ChannelPressure(channel, first),
            StatusKind::PitchWheelChange => MidiEvent::PitchWheelChange(
                channel,
                pitch_from_bytes(first, second),
            ),
        }
    }

    /// Reads one message from a source of bytes: the status byte, then the
    /// data bytes of its kind. The source must hold the whole message. When
    /// the status byte is refused, it alone has been taken from the source.
    pub fn try_from<ITER: Iterator<Item = u8>>(value: IteratorWrapper<&mut ITER>) -> (r: Result<
        MidiEvent,
        UnsupportedStatusCode,
    >)
        requires
            ITER::obeys_prophetic_iter_laws(value.0),
            !(parse_event(ITER::remaining(value.0)) is Truncated),
        ensures
            match parse_event(ITER::remaining(old(value.0))) {
                Parsed::Event(event) => {
                    &&& r == Ok::<MidiEvent, UnsupportedStatusCode>(event)
                    &&& ITER::remaining(final(value.0)) == ITER::remaining(old(value.0)).skip(
                        1 + event.kind_spec().trailing_spec() as int,
                    )
                },
                Parsed::Unsupported(code) => {
                    &&& r == Err::<MidiEvent, UnsupportedStatusCode>(UnsupportedStatusCode(code))
                    &&& ITER::remaining(final(value.0)) == ITER::remaining(old(value.0)).skip(1)
                },
                Parsed::Truncated => false,
            },
            r matches Ok(event) ==> event.well_formed(),
    {
        let source = value.0;
        let status: u8 = source.next().unwrap();
        match decode_status(status) {
            Err(code) => Err(code),
            Ok((kind, channel)) => {
                let first: u8 = source.next().unwrap();
                let second: u8 = if kind.trailing_bytes() == 2 {
                    source.next().unwrap()
                } else {
                    0
                };
                Ok(MidiEvent::from_parts(kind, channel, first, second))
            },
        }
    }

    /// Reads one message from the front of a slice and says how many bytes
    /// it took. Bytes behind the message are not looked at.
    pub fn from_midi_bytes(bytes: &[u8]) -> (r: Result<(MidiEvent, usize), EventError>)
        ensures
            match parse_event(bytes@) {
                Parsed::Event(event) => r == Ok::<(MidiEvent, usize), EventError>(
                    (event, (1 + event.kind_spec().trailing_spec()) as usize),
                ),
                Parsed::Unsupported(code) => r == Err::<(MidiEvent, usize), EventError>(
                    EventError::UnsupportedStatus(UnsupportedStatusCode(code)),
                ),
                Parsed::Truncated => r == Err::<(MidiEvent, usize), EventError>(
                    EventError::UnexpectedEnd,
                ),
            },
            r matches Ok((event, taken)) ==> event.well_formed() && 2 <= taken <= bytes@.len(),
    {
        if bytes.len() == 0 {
            return Err(EventError::UnexpectedEnd);
        }
        match decode_status(bytes[0]) {
            Err(code) => Err(EventError::UnsupportedStatus(code)),
            Ok((kind, channel)) => {
                let trailing: usize = kind.trailing_bytes();
                if bytes.len() - 1 < trailing {
                    return Err(EventError::UnexpectedEnd);
                }
                let first: u8 = bytes[1];
                let second: u8 = if trailing == 2 {
                    bytes[2]
                } else {
                    0
                };
                Ok((MidiEvent::from_parts(kind, channel, first, second), 1 + trailing))
            },
        }
    }
}

/// Every message that is read from bytes is well formed.
pub proof fn lemma_parsed_well_formed(bytes: Seq<u8>)
    ensures
        parse_event(bytes) matches Parsed::Event(event) ==> event.well_formed(),
{
}

/// Reading the encoding of a well-formed message gives the message back,
/// whatever bytes follow the encoding.
pub proof fn lemma_event_round_trip(event: MidiEvent, rest: Seq<u8>)
    requires
        event.well_formed(),
    ensures
        parse_event(event.wire() + rest) == Parsed::Event(event),
        parse_event(event.wire()) == Parsed::Event(event),
        event.wire().len() == 1 + event.kind_spec().trailing_spec(),
{
    lemma_selector_of_kind(event.kind_spec());
    assert(event.wire() + Seq::<u8>::empty() =~= event.wire());
}

/// A status byte whose high half lies outside `0x8..=0xE` is refused with
/// that half, whatever follows it.
pub proof fn lemma_status_rejected(bytes: Seq<u8>)
    requires
        bytes.len() > 0,
        !(0x8 <= bytes[0] / 16 <= 0xE),
    ensures
        parse_event(bytes) == Parsed::Unsupported(bytes[0] / 16),
{
}

} // verus!
