use vstd::prelude::*;

verus! {

/// A control message; handles address the program's tables by position.
#[derive(Clone, Copy, Debug, PartialEq, Eq, Structural)]
pub enum Message {
    NoteOn { key: u8, velocity: u8 },
    NoteOff { key: u8, velocity: u8 },
    Param { param_ref: usize, value: i64 },
    ParamChange { param_ref: usize, change: i64 },
    ModulationAmount { param_ref: usize, source_ref: usize, amount: i64 },
}

/// A message with the time at which it was sent.
#[derive(Clone, Copy, Debug, PartialEq, Eq, Structural)]
pub struct Event {
    pub timestamp: u64,
    pub message: Message,
}

impl Event {
    pub fn new(timestamp: u64, message: Message) -> (r: Event)
        ensures
            r == (Event { timestamp, message }),
    {
        Event { timestamp, message }
    }
}

} // verus!
