use vstd::prelude::*;
use crate::digits::{ascii_digit, digits_of, format_digits, is_digit_byte};
use crate::state::{marker_of, TimerState};

verus! {

/// Every packet is this many bytes long.
pub const PACKET_LEN: usize = 9;

/// The byte that closes every packet: a carriage return.
pub const TERMINATOR: u8 = 13;

/// The value the checksum starts from before the digits are added.
pub const CHECKSUM_BASE: u8 = 64;

/// The sum of the decimal values of the ASCII digits in `s`.
pub open spec fn digit_sum(s: Seq<u8>) -> int
    decreases s.len(),
{
    if s.len() == 0 {
        0
    } else {
        digit_sum(s.drop_last()) + (s.last() - 48)
    }
}

/// The protocol checksum of the six time digits.
pub open spec fn checksum_of(s: Seq<u8>) -> int {
    64 + digit_sum(s)
}

/// The six time digits of a packet: one for the minutes, two for the
/// seconds, three for the milliseconds.
pub open spec fn time_digits(minutes: nat, seconds: nat, millis: nat) -> Seq<u8> {
    digits_of(minutes, 1) + digits_of(seconds, 2) + digits_of(millis, 3)
}

/// The nine bytes sent for `state` and the given time fields.
pub open spec fn packet_of(state: TimerState, minutes: nat, seconds: nat, millis: nat) -> Seq<u8> {
    let t = time_digits(minutes, seconds, millis);
    seq![marker_of(state)] + t + seq![checksum_of(t) as u8, 13u8]
}

/// Whether `p` has the layout of a packet: a marker, six ASCII digits, the
/// checksum of those digits, and the terminator.
pub open spec fn well_formed_packet(p: Seq<u8>) -> bool {
    &&& p.len() == 9
    &&& forall|i: int| 1 <= i < 7 ==> is_digit_byte(#[trigger] p[i])
    &&& p[7] as int == checksum_of(p.subrange(1, 7))
    &&& p[8] == 13
}

proof fn lemma_digit_sum_bounds(s: Seq<u8>)
    requires
        forall|i: int| 0 <= i < s.len() ==> is_digit_byte(#[trigger] s[i]),
    ensures
        0 <= digit_sum(s) <= 9 * s.len(),
    decreases s.len(),
{
    if s.len() > 0 {
        assert(is_digit_byte(s[s.len() - 1]));
        lemma_digit_sum_bounds(s.drop_last());
    }
}

proof fn lemma_digits_are_digit_bytes(value: nat, width: nat)
    ensures
        forall|i: int| 0 <= i < width ==> is_digit_byte(#[trigger] digits_of(value, width)[i]),
{
    assert forall|i: int| 0 <= i < width implies is_digit_byte(#[trigger] digits_of(value, width)[i]) by {
        let q = (value / vstd::arithmetic::power::pow(10, (width - 1 - i) as nat) as nat) as int;
        assert(0 <= q % 10 < 10);
        assert(digits_of(value, width)[i] == ascii_digit(q % 10));
    }
}

/// The time digits of any packet are ASCII digits.
pub proof fn lemma_time_digits_are_digits(minutes: nat, seconds: nat, millis: nat)
    ensures
        time_digits(minutes, seconds, millis).len() == 6,
        forall|i: int|
            0 <= i < 6 ==> is_digit_byte(#[trigger] time_digits(minutes, seconds, millis)[i]),
{
    lemma_digits_are_digit_bytes(minutes, 1);
    lemma_digits_are_digit_bytes(seconds, 2);
    lemma_digits_are_digit_bytes(millis, 3);
    let t = time_digits(minutes, seconds, millis);
    assert forall|i: int| 0 <= i < 6 implies is_digit_byte(#[trigger] t[i]) by {
        if i < 1 {
            assert(t[i] == digits_of(minutes, 1)[i]);
        } else if i < 3 {
            assert(t[i] == digits_of(seconds, 2)[i - 1]);
        } else {
            assert(t[i] == digits_of(millis, 3)[i - 3]);
        }
    }
}

/// Computes the checksum of the six time digits: 64 plus the sum of their
/// decimal values. It always lies between 64 and 118.
pub fn checksum(digits: &[u8; 6]) -> (r: u8)
    requires
        forall|i: int| 0 <= i < 6 ==> is_digit_byte(#[trigger] digits@[i]),
    ensures
        r as int == checksum_of(digits@),
        64 <= r <= 118,
{
    let mut sum: u8 = CHECKSUM_BASE;
    let mut i: usize = 0;
    while i < 6
        invariant
            i <= 6,
            digits@.len() == 6,
            forall|j: int| 0 <= j < 6 ==> is_digit_byte(#[trigger] digits@[j]),
            sum as int == 64 + digit_sum(digits@.subrange(0, i as int)),
            sum <= 64 + 9 * i,
        decreases 6 - i,
    {
        proof {
            assert(digits@.subrange(0, i + 1).drop_last() =~= digits@.subrange(0, i as int));
            assert(is_digit_byte(digits@[i as int]));
        }
        sum = sum + (digits[i] - 48);
        i = i + 1;
    }
    proof {
        assert(digits@.subrange(0, 6) =~= digits@);
        lemma_digit_sum_bounds(digits@);
    }
    sum
}

/// Every packet is well formed: its six time bytes are ASCII digits, its
/// eighth byte is their checksum, and it ends with a carriage return.
pub proof fn lemma_packet_well_formed(state: TimerState, minutes: nat, seconds: nat, millis: nat)
    ensures
        well_formed_packet(packet_of(state, minutes, seconds, millis)),
{
    let t = time_digits(minutes, seconds, millis);
    let p = packet_of(state, minutes, seconds, millis);
    lemma_time_digits_are_digits(minutes, seconds, millis);
    assert(p.subrange(1, 7) =~= t);
    assert forall|i: int| 1 <= i < 7 implies is_digit_byte(#[trigger] p[i]) by {
        assert(p[i] == t[i - 1]);
    }
    lemma_digit_sum_bounds(t);
    assert(p[7] == checksum_of(t) as u8);
    assert(p[8] == 13);
}

/// Encoding keeps no hidden state: the same state and time fields always
/// give the same bytes.
pub proof fn lemma_encode_deterministic(
    state: TimerState,
    minutes: u8,
    seconds: u8,
    millis: u16,
    first: [u8; 9],
    second: [u8; 9],
)
    requires
        first@ == packet_of(state, minutes as nat, seconds as nat, millis as nat),
        second@ == packet_of(state, minutes as nat, seconds as nat, millis as nat),
    ensures
        first@ == second@,
{
}

/// Builds the packet that reports `state` with the given time: the marker,
/// one minute digit, two second digits, three millisecond digits, the
/// checksum and a carriage return. Fields wider than their digits keep
/// their least significant digits.
pub fn encode(state: TimerState, minutes: u8, seconds: u8, millis: u16) -> (r: [u8; 9])
    ensures
        r@ == packet_of(state, minutes as nat, seconds as nat, millis as nat),
        well_formed_packet(r@),
{
    let m = format_digits(minutes as u64, 1);
    let s = format_digits(seconds as u64, 2);
    let ms = format_digits(millis as u64, 3);
    let field: [u8; 6] = [m[0], s[0], s[1], ms[0], ms[1], ms[2]];
    let ghost t = time_digits(minutes as nat, seconds as nat, millis as nat);
    proof {
        lemma_time_digits_are_digits(minutes as nat, seconds as nat, millis as nat);
        assert(field@ =~= t);
    }
    let cs = checksum(&field);
    let r: [u8; 9] = [
        state.to_u8(),
        field[0],
        field[1],
        field[2],
        field[3],
        field[4],
        field[5],
        cs,
        TERMINATOR,
    ];
    proof {
        assert(r@ =~= packet_of(state, minutes as nat, seconds as nat, millis as nat));
        lemma_packet_well_formed(state, minutes as nat, seconds as nat, millis as nat);
    }
    r
}

} // verus!
