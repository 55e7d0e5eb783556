use vstd::prelude::*;

verus! {

/// The one-byte identifier that opens every encoded event.
#[derive(Clone, Copy, Debug, PartialEq, Eq, Structural)]
pub enum EventType {
    NoEvent,
    MediaUpdate,
    MediaUpdateShufflePlay,
    ProcessStateUpdate,
    PCUpdate,
    RawString,
}

/// The wire code of each event type.
pub open spec fn code_of(t: EventType) -> u8 {
    match t {
        EventType::NoEvent => 0x00,
        EventType::MediaUpdate => 0x01,
        EventType::MediaUpdateShufflePlay => 0x02,
        EventType::ProcessStateUpdate => 0x03,
        EventType::PCUpdate => 0x04,
        EventType::RawString => 0x05,
    }
}

/// The event type named by a wire code; unknown codes read as `NoEvent`.
pub open spec fn type_of_code(v: u8) -> EventType {
    if v == 0x01 {
        EventType::MediaUpdate
    } else if v == 0x02 {
        EventType::MediaUpdateShufflePlay
    } else if v == 0x03 {
        EventType::ProcessStateUpdate
    } else if v == 0x04 {
        EventType::PCUpdate
    } else if v == 0x05 {
        EventType::RawString
    } else {
        EventType::NoEvent
    }
}

impl EventType {
    pub fn from_u8(value: u8) -> (r: Self)
        ensures
            r == type_of_code(value),
    {
        match value {
            0x01 => EventType::MediaUpdate,
            0x02 => EventType::MediaUpdateShufflePlay,
            0x03 => EventType::ProcessStateUpdate,
            0x04 => EventType::PCUpdate,
            0x05 => EventType::RawString,
            _ => EventType::NoEvent,
        }
    }

    pub fn code(&self) -> (r: u8)
        ensures
            r == code_of(*self),
    {
        match self {
            EventType::NoEvent => 0x00,
            EventType::MediaUpdate => 0x01,
            EventType::MediaUpdateShufflePlay => 0x02,
            EventType::ProcessStateUpdate => 0x03,
            EventType::PCUpdate => 0x04,
            EventType::RawString => 0x05,
        }
    }
}

/// Reading back the code of any event type gives that type again.
pub proof fn lemma_code_round_trip(t: EventType)
    ensures
        type_of_code(code_of(t)) == t,
{
}

} // verus!
