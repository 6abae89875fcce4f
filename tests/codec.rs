use stackmat::digits::format_digits;
use stackmat::packet::{checksum, encode};
use stackmat::session::to_fields;
use stackmat::state::TimerState;

#[test]
fn format_pads_with_zeros() {
    assert_eq!(format_digits(7, 2), b"07".to_vec());
}

#[test]
fn format_keeps_low_digits() {
    assert_eq!(format_digits(1234, 3), b"234".to_vec());
}

#[test]
fn format_zero_width_is_empty() {
    assert_eq!(format_digits(0, 0), Vec::<u8>::new());
    assert_eq!(format_digits(98765, 0), Vec::<u8>::new());
}

#[test]
fn format_exact_width_and_large_value() {
    assert_eq!(format_digits(999, 3), b"999".to_vec());
    assert_eq!(format_digits(0, 4), b"0000".to_vec());
    assert_eq!(format_digits(u64::MAX, 20), b"18446744073709551615".to_vec());
    assert_eq!(format_digits(u64::MAX, 22), b"0018446744073709551615".to_vec());
}

#[test]
fn fields_of_zero() {
    assert_eq!(to_fields(0), (0, 0, 0));
}

#[test]
fn fields_of_one_minute_one_second() {
    assert_eq!(to_fields(61234), (1, 1, 234));
}

#[test]
fn fields_of_one_hour() {
    assert_eq!(to_fields(3_600_000), (60, 0, 0));
}

#[test]
fn fields_minutes_wrap_at_byte() {
    assert_eq!(to_fields(256 * 60000 + 59_999), (0, 59, 999));
    assert_eq!(to_fields(u64::MAX), (((u64::MAX / 60000) % 256) as u8, 51, 615));
}

#[test]
fn checksum_of_zeros() {
    assert_eq!(checksum(b"000000"), 64);
}

#[test]
fn checksum_of_nines() {
    assert_eq!(checksum(b"999999"), 118);
}

#[test]
fn checksum_of_mixed_digits() {
    assert_eq!(checksum(b"123456"), 64 + 21);
}

#[test]
fn encode_reset_zero() {
    assert_eq!(
        encode(TimerState::Reset, 0, 0, 0),
        [b'I', b'0', b'0', b'0', b'0', b'0', b'0', 64, 0x0D]
    );
}

#[test]
fn encode_running_time() {
    assert_eq!(encode(TimerState::Running, 1, 1, 500), *b" 101500G\r");
}

#[test]
fn encode_markers() {
    assert_eq!(encode(TimerState::Unknown, 0, 0, 0)[0], 0);
    assert_eq!(encode(TimerState::Stopped, 0, 0, 0)[0], b'S');
    assert_eq!(TimerState::Running.to_u8(), b' ');
}

#[test]
fn encode_truncates_minutes() {
    let p = encode(TimerState::Stopped, 12, 59, 999);
    assert_eq!(p, [b'S', b'2', b'5', b'9', b'9', b'9', b'9', 64 + 2 + 5 + 9 + 27, b'\r']);
}

#[test]
fn encode_is_deterministic() {
    let a = encode(TimerState::Running, 3, 42, 17);
    let b = encode(TimerState::Running, 3, 42, 17);
    assert_eq!(a, b);
}
