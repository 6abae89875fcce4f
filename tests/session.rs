use stackmat::session::TimerSession;
use stackmat::state::TimerState;

#[test]
fn new_session_is_reset() {
    let s = TimerSession::new(0);
    assert_eq!(s.state(), TimerState::Reset);
    assert_eq!(s.start_time(), 0);
    assert_eq!(s.idle_packet(), [b'I', b'0', b'0', b'0', b'0', b'0', b'0', 64, b'\r']);
}

#[test]
fn tick_after_sixty_one_and_a_half_seconds() {
    let s = TimerSession::new(0);
    let p = s.run_tick(61500);
    assert_eq!(p, [b' ', b'1', b'0', b'1', b'5', b'0', b'0', 64 + 1 + 1 + 5, b'\r']);
}

#[test]
fn start_resets_the_clock() {
    let mut s = TimerSession::new(100);
    let first = s.start(2600);
    assert_eq!(s.state(), TimerState::Running);
    assert_eq!(s.start_time(), 2600);
    assert_eq!(first, *b" 000000@\r");
    assert_eq!(s.run_tick(2600 + 61500), *b" 101500G\r");
    assert_eq!(s.run_tick(2600), *b" 000000@\r");
}
