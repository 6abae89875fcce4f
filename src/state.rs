use vstd::prelude::*;

verus! {

/// The condition a timer reports in the first byte of every packet.
#[derive(Clone, Copy, Debug, PartialEq, Eq, Structural)]
pub enum TimerState {
    Unknown,
    Reset,
    Running,
    Stopped,
}

/// The marker byte that stands for `state` on the wire.
pub open spec fn marker_of(state: TimerState) -> u8 {
    match state {
        TimerState::Unknown => 0u8,
        TimerState::Reset => 0x49u8,
        TimerState::Running => 0x20u8,
        TimerState::Stopped => 0x53u8,
    }
}

impl TimerState {
    /// The wire marker of this state: NUL, `I`, space or `S`.
    pub fn to_u8(&self) -> (r: u8)
        ensures
            r == marker_of(*self),
    {
        match self {
            TimerState::Unknown => 0,
            TimerState::Reset => 73,
            TimerState::Running => 32,
            TimerState::Stopped => 83,
        }
    }
}

} // verus!
