use vstd::prelude::*;
use vstd::arithmetic::power::pow;

verus! {

/// The ASCII byte of the decimal digit `d`.
pub open spec fn ascii_digit(d: int) -> u8 {
    (48 + d) as u8
}

/// Whether `b` is one of the ASCII bytes `0` to `9`.
pub open spec fn is_digit_byte(b: u8) -> bool {
    48 <= b <= 57
}

/// The field of `width` decimal digits that shows the least significant
/// `width` digits of `value`, most significant first, zero padded.
pub open spec fn digits_of(value: nat, width: nat) -> Seq<u8> {
    Seq::new(width, |i: int| ascii_digit((value / pow(10, (width - 1 - i) as nat) as nat) as int % 10))
}

proof fn lemma_pow10_step(value: nat, k: nat)
    ensures
        pow(10, k) > 0,
        (value / pow(10, k) as nat) / 10 == value / pow(10, k + 1) as nat,
{
    vstd::arithmetic::power::lemma_pow_positive(10, k);
    vstd::arithmetic::power::lemma_pow_adds(10, k, 1);
    vstd::arithmetic::power::lemma_pow1(10);
    vstd::arithmetic::div_mod::lemma_div_denominator(value as int, pow(10, k), 10);
}

/// Renders `value` as a field of `width` ASCII digits, keeping the least
/// significant digits when the value has more than `width` of them.
pub fn format_digits(value: u64, width: usize) -> (r: Vec<u8>)
    ensures
        r@ == digits_of(value as nat, width as nat),
{
    let mut r: Vec<u8> = Vec::new();
    let mut k: usize = 0;
    while k < width
        invariant
            k <= width,
            r@.len() == k,
        decreases width - k,
    {
        r.push(48);
        k = k + 1;
    }
    let mut n: u64 = value;
    let mut done: usize = 0;
    proof {
        vstd::arithmetic::power::lemma_pow0(10);
        assert(pow(10, 0) as nat == 1nat);
        assert(value as nat / 1nat == value as nat);
    }
    while done < width
        invariant
            done <= width,
            r@.len() == width,
            n as nat == value as nat / pow(10, done as nat) as nat,
            forall|j: int|
                width - done <= j < width ==> #[trigger] r@[j] == digits_of(
                    value as nat,
                    width as nat,
                )[j],
        decreases width - done,
    {
        proof {
            lemma_pow10_step(value as nat, done as nat);
        }
        let pos: usize = width - 1 - done;
        let d: u8 = (n % 10) as u8;
        r.set(pos, 48 + d);
        n = n / 10;
        done = done + 1;
    }
    assert(r@ =~= digits_of(value as nat, width as nat));
    r
}

} // verus!
