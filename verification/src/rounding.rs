use vstd::prelude::*;
use vstd::arithmetic::div_mod::{
    lemma_basic_div,
    lemma_fundamental_div_mod,
    lemma_fundamental_div_mod_converse,
    lemma_mod_bound,
};
use vstd::arithmetic::mul::{lemma_mul_inequality, lemma_mul_upper_bound};
use vstd::arithmetic::power2::{
    lemma2_to64,
    lemma_pow2_adds,
    lemma_pow2_pos,
    lemma_pow2_strictly_increases,
    lemma_pow2_unfold,
    pow2,
};
use vstd::bits::{lemma_u64_shl_is_mul, lemma_u64_shr_is_div};
use crate::single::Single;

verus! {

impl Single {
    /// Whether the sign bit is set.
    pub open spec fn negative(self) -> bool {
        self.bits >= 0x8000_0000
    }

    /// The exponent field, bits 23 to 30.
    pub open spec fn exponent_field(self) -> int {
        self.magnitude() / 0x80_0000
    }

    /// The fraction field, bits 0 to 22.
    pub open spec fn fraction(self) -> int {
        self.magnitude() % 0x80_0000
    }

    /// The integer significand: the fraction, with the implicit leading bit
    /// unless the number is zero or subnormal.
    pub open spec fn significand(self) -> int {
        if self.exponent_field() == 0 {
            self.fraction()
        } else {
            self.fraction() + 0x80_0000
        }
    }

    /// The power of two that scales the significand: the absolute value of a
    /// finite number is `significand() * 2^scale()`.
    pub open spec fn scale(self) -> int {
        if self.exponent_field() == 0 {
            -149
        } else {
            self.exponent_field() - 150
        }
    }

    /// The absolute value of a finite number, rounded to the nearest integer
    /// with halves rounded up. For `scale() = -s < 0` this is the floor of
    /// `significand() / 2^s + 1/2`. The number 1.5, for one, has the
    /// significand `0xc0_0000` and the scale -23, and its rounded magnitude
    /// is `(0xc0_0000 + 2^22) / 2^23 = 2`.
    pub open spec fn rounded_magnitude(self) -> int {
        if self.scale() >= 0 {
            self.significand() * pow2(self.scale() as nat)
        } else {
            (self.significand() + pow2((-self.scale() - 1) as nat)) / (pow2(
                (-self.scale()) as nat,
            ) as int)
        }
    }

    /// A finite number rounded to the nearest integer, halves away from zero.
    pub open spec fn rounded(self) -> int {
        if self.negative() {
            -self.rounded_magnitude()
        } else {
            self.rounded_magnitude()
        }
    }

    /// The nearest integer where it is defined and within 64 bits of zero.
    pub open spec fn nearest_spec(self) -> Option<i128> {
        if self.finite() && self.rounded_magnitude() < 0x1_0000_0000_0000_0000 {
            Some(self.rounded() as i128)
        } else {
            None
        }
    }

    /// Rounds to the nearest integer, halves away from zero.
    ///
    /// The result is `None` for a NaN and for an infinity, and also for a
    /// number whose nearest integer is `2^64` or more in absolute value. Both
    /// zeros round to 0.
    #[verifier::when_used_as_spec(nearest_spec)]
    pub fn nearest(self) -> (r: Option<i128>)
        ensures
            r == self.nearest_spec(),
    {
        let bits: u32 = self.bits;
        let magnitude: u32 = bits & 0x7fff_ffff;
        let field: u32 = magnitude >> 23;
        let fraction: u32 = magnitude & 0x7f_ffff;
        assert(magnitude == self.magnitude() && field == magnitude / 0x80_0000 && fraction
            == magnitude % 0x80_0000 && field <= 255) by {
            assert(bits & 0x7fff_ffffu32 == if bits >= 0x8000_0000u32 {
                (bits - 0x8000_0000u32) as u32
            } else {
                bits
            }) by (bit_vector);
            assert(magnitude >> 23u32 == magnitude / 0x80_0000u32) by (bit_vector);
            assert(magnitude & 0x7f_ffffu32 == magnitude % 0x80_0000u32) by (bit_vector);
            assert(magnitude >> 23u32 <= 255u32) by (bit_vector)
                requires
                    magnitude <= 0x7fff_ffffu32,
            ;
        }
        if field == 255 {
            return None;
        }
        let significand: u64 = if field == 0 {
            fraction as u64
        } else {
            fraction as u64 + 0x80_0000
        };
        let rounded: u64 = if field >= 150 {
            let k: u64 = (field - 150) as u64;
            proof {
                lemma_pow2_values();
            }
            if k > 40 {
                proof {
                    lemma_pow2_at_least(41, k as nat);
                    lemma_mul_inequality(0x80_0000, significand as int, pow2(k as nat) as int);
                    lemma_mul_inequality(
                        pow2(41) as int,
                        pow2(k as nat) as int,
                        0x80_0000,
                    );
                }
                return None;
            }
            proof {
                lemma_pow2_at_least(k as nat, 40);
                lemma_mul_upper_bound(
                    significand as int,
                    0xff_ffff,
                    pow2(k as nat) as int,
                    pow2(40) as int,
                );
                lemma_u64_shl_is_mul(significand, k);
            }
            significand << k
        } else {
            let s: u64 = if field == 0 {
                149
            } else {
                (150 - field) as u64
            };
            proof {
                lemma_pow2_values();
                lemma_pow2_unfold(s as nat);
                lemma_pow2_pos(s as nat);
            }
            if s > 24 {
                proof {
                    lemma_pow2_at_least(24, (s - 1) as nat);
                    lemma_basic_div(significand + pow2((s - 1) as nat), pow2(s as nat) as int);
                }
                0
            } else {
                proof {
                    lemma_pow2_at_least((s - 1) as nat, 23);
                    lemma_u64_shl_is_mul(1, (s - 1) as u64);
                }
                let half: u64 = 1u64 << (s - 1);
                proof {
                    lemma_u64_shr_is_div((significand + half) as u64, s);
                }
                (significand + half) >> s
            }
        };
        let n: i128 = rounded as i128;
        if bits >= 0x8000_0000 {
            Some(-n)
        } else {
            Some(n)
        }
    }
}

/// Whether `n` is the integer nearest to `m / p`, the higher of the two where
/// `m / p` lies half-way between them.
pub open spec fn nearest_to(n: int, m: int, p: int) -> bool {
    (2 * n - 1) * p <= 2 * m < (2 * n + 1) * p
}

/// The rounded magnitude of a number with fractional bits is the integer
/// nearest to its absolute value, and the higher one at a half.
pub proof fn lemma_rounded_is_nearest(x: Single)
    requires
        x.scale() < 0,
    ensures
        nearest_to(x.rounded_magnitude(), x.significand(), pow2((-x.scale()) as nat) as int),
{
    let s = (-x.scale()) as nat;
    let p = pow2(s) as int;
    let h = pow2((s - 1) as nat) as int;
    let m = x.significand();
    let n = x.rounded_magnitude();
    lemma_pow2_unfold(s);
    lemma_pow2_pos(s);
    lemma_fundamental_div_mod(m + h, p);
    lemma_mod_bound(m + h, p);
    let r = (m + h) % p;
    assert(m + h == p * n + r);
    assert((2 * n - 1) * p == 2 * (p * n) - p) by (nonlinear_arith);
    assert((2 * n + 1) * p == 2 * (p * n) + p) by (nonlinear_arith);
}

/// Whether the finite number `x` is the whole number `n`: its significand,
/// scaled by its power of two, is exactly the absolute value of `n`, and its
/// sign does not contradict the sign of `n`.
pub open spec fn is_whole(x: Single, n: int) -> bool {
    &&& x.finite()
    &&& if x.negative() {
        n <= 0
    } else {
        n >= 0
    }
    &&& if x.scale() >= 0 {
        x.significand() * pow2(x.scale() as nat) == (if n >= 0 {
            n
        } else {
            -n
        })
    } else {
        x.significand() == (if n >= 0 {
            n
        } else {
            -n
        }) * pow2((-x.scale()) as nat)
    }
}

/// A whole number rounds to itself.
pub proof fn lemma_whole_rounds_to_itself(x: Single, n: int)
    requires
        is_whole(x, n),
    ensures
        x.rounded() == n,
{
    if x.scale() < 0 {
        let s = (-x.scale()) as nat;
        let p = pow2(s) as int;
        let h = pow2((s - 1) as nat) as int;
        let a = if n >= 0 {
            n
        } else {
            -n
        };
        lemma_pow2_unfold(s);
        lemma_pow2_pos(s);
        lemma_pow2_pos((s - 1) as nat);
        lemma_fundamental_div_mod_converse(a * p + h, p, a, h);
    }
}

/// The powers of two that bound the cases of rounding.
proof fn lemma_pow2_values()
    ensures
        pow2(23) == 0x80_0000,
        pow2(24) == 0x100_0000,
        pow2(40) == 0x100_0000_0000,
        pow2(41) == 0x200_0000_0000,
{
    lemma2_to64();
    lemma_pow2_adds(32, 8);
    lemma_pow2_adds(32, 9);
}

/// Powers of two grow with the exponent.
proof fn lemma_pow2_at_least(low: nat, high: nat)
    requires
        low <= high,
    ensures
        pow2(low) <= pow2(high),
{
    if low < high {
        lemma_pow2_strictly_increases(low, high);
    }
}

} // verus!
