use vstd::prelude::*;
use crate::packet::{encode, packet_of, well_formed_packet};
use crate::state::TimerState;

verus! {

/// How long the reset packet is held before the timer starts running.
pub const SETTLE_DELAY_MS: u32 = 2500;

/// The pause between two packets while the timer runs.
pub const TICK_INTERVAL_MS: u32 = 60;

/// The minutes field of a duration of `ms` milliseconds, as one byte holds it.
pub open spec fn minutes_of(ms: nat) -> nat {
    (ms / 60000) % 256
}

/// The seconds field of a duration of `ms` milliseconds.
pub open spec fn seconds_of(ms: nat) -> nat {
    (ms % 60000) / 1000
}

/// The milliseconds field of a duration of `ms` milliseconds.
pub open spec fn millis_of(ms: nat) -> nat {
    ms % 1000
}

/// Splits a duration in milliseconds into whole minutes, the seconds of
/// the last minute and the milliseconds of the last second. The minutes
/// are kept modulo 256, the width of their byte.
pub fn to_fields(elapsed_ms: u64) -> (r: (u8, u8, u16))
    ensures
        r.0 as nat == minutes_of(elapsed_ms as nat),
        r.1 as nat == seconds_of(elapsed_ms as nat),
        r.2 as nat == millis_of(elapsed_ms as nat),
        r.1 < 60,
        r.2 < 1000,
{
    let minutes = ((elapsed_ms / 60000) % 256) as u8;
    let seconds = ((elapsed_ms % 60000) / 1000) as u8;
    let millis = (elapsed_ms % 1000) as u16;
    (minutes, seconds, millis)
}

/// The packet a running timer sends `elapsed` milliseconds after it started.
pub open spec fn running_packet(elapsed: nat) -> Seq<u8> {
    packet_of(
        TimerState::Running,
        minutes_of(elapsed),
        seconds_of(elapsed),
        millis_of(elapsed),
    )
}

/// A timer that reports its state and the time since it started.
pub struct TimerSession {
    state: TimerState,
    start_ms: u64,
}

impl TimerSession {
    /// The state the session reports.
    pub closed spec fn spec_state(&self) -> TimerState {
        self.state
    }

    /// The clock reading, in milliseconds, at which the session started.
    pub closed spec fn spec_start(&self) -> u64 {
        self.start_ms
    }

    /// A session in the reset state, whose elapsed time is counted from
    /// the clock reading `now_ms`.
    pub fn new(now_ms: u64) -> (r: Self)
        ensures
            r.spec_state() == TimerState::Reset,
            r.spec_start() == now_ms,
    {
        TimerSession { state: TimerState::Reset, start_ms: now_ms }
    }

    /// The state the session reports.
    pub fn state(&self) -> (r: TimerState)
        ensures
            r == self.spec_state(),
    {
        self.state
    }

    /// The clock reading at which the session started.
    pub fn start_time(&self) -> (r: u64)
        ensures
            r == self.spec_start(),
    {
        self.start_ms
    }

    /// The packet that reports the current state with a zero time.
    pub fn idle_packet(&self) -> (r: [u8; 9])
        ensures
            r@ == packet_of(self.spec_state(), 0, 0, 0),
    {
        encode(self.state, 0, 0, 0)
    }

    /// Starts the timer at the clock reading `now_ms` and returns the first
    /// running packet, whose time is zero.
    pub fn start(&mut self, now_ms: u64) -> (r: [u8; 9])
        ensures
            final(self).spec_state() == TimerState::Running,
            final(self).spec_start() == now_ms,
            r@ == running_packet(0),
    {
        self.state = TimerState::Running;
        self.start_ms = now_ms;
        encode(TimerState::Running, 0, 0, 0)
    }

    /// The running packet for the clock reading `now_ms`, which reports the
    /// time elapsed since the session started.
    pub fn run_tick(&self, now_ms: u64) -> (r: [u8; 9])
        requires
            self.spec_start() <= now_ms,
        ensures
            r@ == running_packet((now_ms - self.spec_start()) as nat),
            well_formed_packet(r@),
    {
        let elapsed = now_ms - self.start_ms;
        let fields = to_fields(elapsed);
        encode(TimerState::Running, fields.0, fields.1, fields.2)
    }
}

} // verus!
