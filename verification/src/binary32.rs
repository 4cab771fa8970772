//! Numbers from the bits of IEEE 754 single-precision values.
//!
//! A tokenizer hands magnitudes over in that format. Its bits are read here
//! with integer arithmetic alone: a sign, eight bits of exponent and
//! twenty-three bits of fraction.

use crate::number::{clamp, round_div_nat, Number};
use vstd::prelude::*;

verus! {

/// Two to the power `e`.
pub open spec fn two_to(e: nat) -> nat
    decreases e,
{
    if e == 0 {
        1
    } else {
        2 * two_to((e - 1) as nat)
    }
}

/// The exponent field of `bits`.
pub open spec fn exponent_of(bits: u32) -> int {
    ((bits / 0x80_0000) % 256) as int
}

/// The fraction field of `bits`.
pub open spec fn fraction_of(bits: u32) -> int {
    (bits % 0x80_0000) as int
}

/// The magnitude, in millionths and rounded to the nearest (a tie going up),
/// of the value with the bits `bits`.
///
/// An exponent field of zero marks a value without the leading one, in
/// units of two to the power -149. Any other exponent field `e` below 255
/// marks the value `(2^23 + fraction) * 2^(e - 150)`. The exponent field 255
/// marks infinity, which counts as beyond every number, or with a fraction
/// that is not zero no number at all, which counts as zero.
pub open spec fn magnitude_of(bits: u32) -> int {
    let exponent = exponent_of(bits);
    let fraction = fraction_of(bits);
    if exponent == 255 {
        if fraction == 0 {
            0x8000_0000_0000_0000
        } else {
            0
        }
    } else if exponent == 0 {
        round_div_nat(fraction * 1_000_000, two_to(149) as int)
    } else if exponent >= 150 {
        (0x80_0000 + fraction) * 1_000_000 * two_to((exponent - 150) as nat)
    } else {
        round_div_nat((0x80_0000 + fraction) * 1_000_000, two_to((150 - exponent) as nat) as int)
    }
}

/// The count of millionths nearest to the value with the bits `bits`, the
/// ends of the range standing for all that lies beyond them.
pub open spec fn micros_of(bits: u32) -> int {
    if bits >= 0x8000_0000 {
        clamp(-magnitude_of(bits))
    } else {
        clamp(magnitude_of(bits))
    }
}

/// A larger exponent gives a larger power of two.
pub proof fn lemma_two_to_grows(a: nat, b: nat)
    requires
        a <= b,
    ensures
        two_to(a) <= two_to(b),
        two_to(a) >= 1,
    decreases b,
{
    if a < b {
        lemma_two_to_grows(a, (b - 1) as nat);
    } else if a > 0 {
        lemma_two_to_grows((a - 1) as nat, (a - 1) as nat);
    }
}

/// The powers of two that bound what is computed here.
pub proof fn lemma_two_to_bounds()
    ensures
        two_to(40) == 0x100_0000_0000,
        two_to(41) == 0x200_0000_0000,
        two_to(45) == 0x2000_0000_0000,
        two_to(46) == 0x4000_0000_0000,
{
    reveal_with_fuel(two_to, 47);
}

fn power_of_two(e: u32) -> (r: u128)
    requires
        e <= 45,
    ensures
        r == two_to(e as nat),
        1 <= r <= 0x2000_0000_0000,
{
    let mut r: u128 = 1;
    let mut i: u32 = 0;
    proof {
        lemma_two_to_bounds();
    }
    while i < e
        invariant
            i <= e <= 45,
            r == two_to(i as nat),
            two_to(45) == 0x2000_0000_0000,
        decreases e - i,
    {
        proof {
            lemma_two_to_grows((i + 1) as nat, 45);
        }
        r = r * 2;
        i = i + 1;
    }
    proof {
        lemma_two_to_grows(e as nat, 45);
    }
    r
}

impl Number {
    /// The number nearest to the single-precision value with the bits
    /// `bits`, a tie going away from zero. A value beyond the range becomes
    /// the end of the range on its side, infinity too; what is no number
    /// becomes zero.
    pub fn from_binary32(bits: u32) -> (r: Number)
        ensures
            r@ == micros_of(bits),
    {
        let negative = bits >= 0x8000_0000;
        let exponent: u32 = (bits / 0x80_0000) % 256;
        let fraction: u32 = bits % 0x80_0000;
        if exponent == 255 {
            return if fraction != 0 {
                Number::from_micros(0)
            } else if negative {
                Number::from_micros(i64::MIN)
            } else {
                Number::from_micros(i64::MAX)
            };
        }
        let significand: u128 = if exponent == 0 {
            fraction as u128
        } else {
            0x80_0000 + fraction as u128
        };
        let scaled: u128 = significand * 1_000_000;
        proof {
            lemma_two_to_bounds();
        }
        let magnitude: u128 = if exponent >= 150 {
            let shift: u32 = exponent - 150;
            if shift > 40 {
                proof {
                    lemma_two_to_grows(41, shift as nat);
                    let p = two_to(shift as nat) as int;
                    let n = scaled as int;
                    assert(n * p >= 0x8000_0000_0000_0000) by (nonlinear_arith)
                        requires
                            n >= 0x80_0000 * 1_000_000,
                            p >= 0x200_0000_0000,
                    ;
                }
                0x8000_0000_0000_0000
            } else {
                proof {
                    lemma_two_to_grows(shift as nat, 40);
                    let p = two_to(shift as nat) as int;
                    let n = scaled as int;
                    assert(n * p <= 0x1_0000_0000_0000 * 0x100_0000_0000) by (nonlinear_arith)
                        requires
                            0 <= n <= 0x1_0000_0000_0000,
                            0 <= p <= 0x100_0000_0000,
                    ;
                }
                scaled * power_of_two(shift)
            }
        } else {
            let shift: u32 = if exponent == 0 {
                149
            } else {
                150 - exponent
            };
            if shift > 45 {
                proof {
                    lemma_two_to_grows(46, shift as nat);
                    let d = two_to(shift as nat) as int;
                    let n = scaled as int;
                    assert(n / d == 0 && n % d == n) by (nonlinear_arith)
                        requires
                            0 <= n < d,
                    ;
                }
                0
            } else {
                let d = power_of_two(shift);
                let q = scaled / d;
                let rem = scaled % d;
                if 2 * rem >= d {
                    q + 1
                } else {
                    q
                }
            }
        };
        assert(magnitude == magnitude_of(bits) || (magnitude >= 0x8000_0000_0000_0000
            && magnitude_of(bits) >= 0x8000_0000_0000_0000));
        if magnitude >= 0x8000_0000_0000_0000 {
            if negative {
                Number::from_micros(i64::MIN)
            } else {
                Number::from_micros(i64::MAX)
            }
        } else if negative {
            Number::from_micros(-(magnitude as i64))
        } else {
            Number::from_micros(magnitude as i64)
        }
    }
}

} // verus!
