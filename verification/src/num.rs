//! Fixed-point numbers.
//!
//! A run-time number is a count of thousandths held in an `i64`: the number
//! `3.5` is `Num { raw: 3500 }`. Every operation states its exact result over
//! the raw count; results outside the representable range saturate to the
//! nearest bound.

use vstd::prelude::*;

verus! {

/// Thousandths per unit.
pub const SCALE: i64 = 1000;

/// A fixed-point decimal number: `raw` thousandths.
#[derive(Clone, Copy, Debug, PartialEq, Eq, Structural)]
pub struct Num {
    pub raw: i64,
}

/// Saturates a mathematical integer into the `i64` range.
pub open spec fn clip(x: int) -> int {
    if x > i64::MAX {
        i64::MAX as int
    } else if x < i64::MIN {
        i64::MIN as int
    } else {
        x
    }
}

/// Magnitude of an integer.
pub open spec fn iabs(x: int) -> int {
    if x < 0 {
        -x
    } else {
        x
    }
}

/// Applies a sign to a magnitude.
pub open spec fn sign_mag(neg: bool, m: int) -> int {
    if neg {
        -m
    } else {
        m
    }
}

/// Integer division truncated toward zero, as hardware division rounds.
pub open spec fn trunc_div(a: int, b: int) -> int {
    sign_mag((a < 0) != (b < 0), iabs(a) / iabs(b))
}

/// Integer division rounded toward negative infinity.
pub open spec fn floor_div(a: int, b: int) -> int {
    if (a < 0) == (b < 0) {
        iabs(a) / iabs(b)
    } else if iabs(a) % iabs(b) == 0 {
        -(iabs(a) / iabs(b))
    } else {
        -(iabs(a) / iabs(b)) - 1
    }
}

/// Magnitude of an `i64`, exact also for the smallest value.
fn mag64(x: i64) -> (m: u64)
    ensures
        m == iabs(x as int),
{
    if x < 0 {
        (-(x as i128)) as u64
    } else {
        x as u64
    }
}

/// Saturates an `i128` into the `i64` range.
fn clamp_i128(x: i128) -> (r: i64)
    ensures
        r as int == clip(x as int),
{
    if x > i64::MAX as i128 {
        i64::MAX
    } else if x < i64::MIN as i128 {
        i64::MIN
    } else {
        x as i64
    }
}

/// Saturates a signed magnitude into the `i64` range.
fn clamp_mag(neg: bool, m: u128) -> (r: i64)
    ensures
        r as int == clip(sign_mag(neg, m as int)),
{
    if neg {
        if m >= 9223372036854775808u128 {
            i64::MIN
        } else {
            (-(m as i128)) as i64
        }
    } else {
        if m > i64::MAX as u128 {
            i64::MAX
        } else {
            m as i64
        }
    }
}

/// Magnitudes multiply to the product's magnitude, and the product of two
/// non-zero factors of unlike sign is negative.
proof fn lemma_mul_sign(a: int, b: int)
    ensures
        iabs(a) * iabs(b) == iabs(a * b),
        a != 0 && b != 0 && ((a < 0) != (b < 0)) ==> a * b < 0,
        ((a < 0) == (b < 0)) ==> a * b >= 0,
{
    assert(iabs(a) * iabs(b) == iabs(a * b) && (a != 0 && b != 0 && ((a < 0) != (b < 0)) ==> a * b
        < 0) && (((a < 0) == (b < 0)) ==> a * b >= 0)) by (nonlinear_arith);
}

impl Num {
    /// Exact sum, saturated.
    pub open spec fn s_add(self, other: Num) -> Num {
        Num { raw: clip(self.raw + other.raw) as i64 }
    }

    /// Exact difference, saturated.
    pub open spec fn s_sub(self, other: Num) -> Num {
        Num { raw: clip(self.raw - other.raw) as i64 }
    }

    /// Product, truncated toward zero to thousandths and saturated.
    pub open spec fn s_mul(self, other: Num) -> Num {
        Num { raw: clip(trunc_div(self.raw * other.raw, SCALE as int)) as i64 }
    }

    /// What division yields when the divisor is zero: the saturation bound on
    /// the dividend's side, or zero for zero.
    pub open spec fn s_div_zero(a: int) -> int {
        if a > 0 {
            i64::MAX as int
        } else if a < 0 {
            i64::MIN as int
        } else {
            0
        }
    }

    /// Quotient in thousandths, truncated toward zero and saturated; a zero
    /// divisor saturates.
    pub open spec fn s_div(self, other: Num) -> Num {
        if other.raw == 0 {
            Num { raw: Self::s_div_zero(self.raw as int) as i64 }
        } else {
            Num { raw: clip(trunc_div(self.raw * SCALE, other.raw as int)) as i64 }
        }
    }

    /// The whole quotient, rounded toward negative infinity, in thousandths;
    /// a zero divisor saturates.
    pub open spec fn s_quotient(self, other: Num) -> Num {
        if other.raw == 0 {
            Num { raw: Self::s_div_zero(self.raw as int) as i64 }
        } else {
            Num { raw: clip(SCALE * floor_div(self.raw as int, other.raw as int)) as i64 }
        }
    }

    /// Remainder of truncated division; a zero divisor yields zero.
    pub open spec fn s_rem(self, other: Num) -> Num {
        if other.raw == 0 {
            Num { raw: 0 }
        } else {
            Num { raw: (self.raw - trunc_div(self.raw as int, other.raw as int) * other.raw) as i64 }
        }
    }

    /// Rounding toward negative infinity.
    pub open spec fn s_floor(self) -> Num {
        Num { raw: clip(self.raw - self.raw as int % (SCALE as int)) as i64 }
    }

    /// Rounding toward positive infinity.
    pub open spec fn s_ceil(self) -> Num {
        Num {
            raw: clip(
                if self.raw as int % (SCALE as int) == 0 {
                    self.raw as int
                } else {
                    self.raw - self.raw as int % (SCALE as int) + SCALE
                },
            ) as i64,
        }
    }

    /// Rounding half away from zero.
    pub open spec fn s_round(self) -> Num {
        Num {
            raw: clip(
                sign_mag(self.raw < 0, SCALE * ((iabs(self.raw as int) + 500) / (SCALE as int))),
            ) as i64,
        }
    }

    /// The fractional part, with the number's own sign.
    pub open spec fn s_fract(self) -> Num {
        Num { raw: sign_mag(self.raw < 0, iabs(self.raw as int) % (SCALE as int)) as i64 }
    }

    /// The magnitude, saturated.
    pub open spec fn s_abs(self) -> Num {
        Num { raw: clip(iabs(self.raw as int)) as i64 }
    }

    /// The square.
    pub open spec fn s_square(self) -> Num {
        self.s_mul(self)
    }

    /// The distance below the nearest whole number, negated below zero.
    pub open spec fn s_unnatural(self) -> Num {
        let u = self.s_sub(self.s_round());
        if self.raw < 0 {
            Num { raw: 1000 }.s_sub(u)
        } else {
            u
        }
    }

    /// The smaller of two numbers.
    pub open spec fn s_min(self, other: Num) -> Num {
        if self.raw <= other.raw {
            self
        } else {
            other
        }
    }

    /// The number zero.
    pub fn zero() -> (r: Num)
        ensures
            r.raw == 0,
    {
        Num { raw: 0 }
    }

    /// The number holding `raw` thousandths.
    pub fn from_raw(raw: i64) -> (r: Num)
        ensures
            r.raw == raw,
    {
        Num { raw }
    }

    /// The whole number `i`, saturated into range.
    pub fn from_int(i: i64) -> (r: Num)
        ensures
            r.raw as int == clip(i * SCALE),
    {
        proof {
            assert(i64::MIN * 1000 <= i * 1000 <= i64::MAX * 1000) by (nonlinear_arith)
                requires
                    i64::MIN <= i <= i64::MAX,
            ;
        }
        Num { raw: clamp_i128(i as i128 * 1000i128) }
    }

    /// The whole number a count denotes.
    pub open spec fn s_of_count(n: int) -> Num {
        Num { raw: clip(n * (SCALE as int)) as i64 }
    }

    /// The whole number a count denotes, saturated into range.
    pub fn from_count(n: usize) -> (r: Num)
        ensures
            r == Self::s_of_count(n as int),
    {
        proof {
            assert(0 <= n * 1000 <= usize::MAX * 1000) by (nonlinear_arith)
                requires
                    0 <= n <= usize::MAX,
            ;
        }
        Num { raw: clamp_i128(n as i128 * 1000i128) }
    }

    /// Exact sum, saturated.
    pub fn add(self, other: Num) -> (r: Num)
        ensures
            r.raw as int == clip(self.raw + other.raw),
            r == self.s_add(other),
    {
        Num { raw: clamp_i128(self.raw as i128 + other.raw as i128) }
    }

    /// Exact difference, saturated.
    pub fn sub(self, other: Num) -> (r: Num)
        ensures
            r.raw as int == clip(self.raw - other.raw),
            r == self.s_sub(other),
    {
        Num { raw: clamp_i128(self.raw as i128 - other.raw as i128) }
    }

    /// Product, truncated toward zero to thousandths and saturated.
    pub fn mul(self, other: Num) -> (r: Num)
        ensures
            r.raw as int == clip(trunc_div(self.raw * other.raw, SCALE as int)),
            r == self.s_mul(other),
    {
        let neg: bool = (self.raw < 0) != (other.raw < 0);
        let ma: u128 = mag64(self.raw) as u128;
        let mb: u128 = mag64(other.raw) as u128;
        proof {
            assert(ma * mb <= 0x8000_0000_0000_0000u128 * 0x8000_0000_0000_0000u128)
                by (nonlinear_arith)
                requires
                    ma <= 0x8000_0000_0000_0000u128,
                    mb <= 0x8000_0000_0000_0000u128,
            ;
        }
        let q: u128 = (ma * mb) / 1000;
        proof {
            lemma_mul_sign(self.raw as int, other.raw as int);
            assert(ma * mb == iabs(self.raw * other.raw)) by (nonlinear_arith)
                requires
                    ma == iabs(self.raw as int),
                    mb == iabs(other.raw as int),
                    iabs(self.raw as int) * iabs(other.raw as int) == iabs(
                        self.raw * other.raw,
                    ),
            ;
        }
        Num { raw: clamp_mag(neg, q) }
    }

    /// Quotient in thousandths, truncated toward zero and saturated; a zero
    /// divisor saturates.
    pub fn div(self, other: Num) -> (r: Num)
        ensures
            other.raw != 0 ==> r.raw as int == clip(trunc_div(self.raw * SCALE, other.raw as int)),
            r == self.s_div(other),
    {
        if other.raw == 0 {
            if self.raw > 0 {
                Num { raw: i64::MAX }
            } else if self.raw < 0 {
                Num { raw: i64::MIN }
            } else {
                Num { raw: 0 }
            }
        } else {
            let neg: bool = (self.raw < 0) != (other.raw < 0);
            let ma: u128 = mag64(self.raw) as u128;
            let mb: u128 = mag64(other.raw) as u128;
            let q: u128 = (ma * 1000) / mb;
            proof {
                lemma_mul_sign(self.raw as int, 1000);
                assert(ma * 1000 == iabs(self.raw * 1000)) by (nonlinear_arith)
                    requires
                        ma == iabs(self.raw as int),
                        iabs(self.raw as int) * iabs(1000int) == iabs(self.raw * 1000),
                ;
                assert(self.raw * 1000 < 0 <==> self.raw < 0) by (nonlinear_arith);
                assert(iabs(other.raw as int) == iabs(self.raw * 1000) || true);
            }
            Num { raw: clamp_mag(neg, q) }
        }
    }

    /// The whole quotient, rounded toward negative infinity, as a number (in
    /// thousandths); a zero divisor saturates.
    pub fn quotient(self, other: Num) -> (r: Num)
        ensures
            other.raw != 0 ==> r.raw as int == clip(
                SCALE * floor_div(self.raw as int, other.raw as int),
            ),
            r == self.s_quotient(other),
    {
        if other.raw == 0 {
            if self.raw > 0 {
                Num { raw: i64::MAX }
            } else if self.raw < 0 {
                Num { raw: i64::MIN }
            } else {
                Num { raw: 0 }
            }
        } else {
            let ma: u64 = mag64(self.raw);
            let mb: u64 = mag64(other.raw);
            let q0: u128 = ma as u128 / mb as u128;
            let exact: bool = ma as u128 % mb as u128 == 0;
            let fd: i128 = if (self.raw < 0) == (other.raw < 0) {
                q0 as i128
            } else if exact {
                -(q0 as i128)
            } else {
                -(q0 as i128) - 1
            };
            proof {
                assert(fd == floor_div(self.raw as int, other.raw as int));
                let mai = ma as int;
                let mbi = mb as int;
                let q = mai / mbi;
                let rm = mai % mbi;
                vstd::arithmetic::div_mod::lemma_fundamental_div_mod(mai, mbi);
                vstd::arithmetic::div_mod::lemma_mod_bound(mai, mbi);
                assert(q >= 0) by {
                    vstd::arithmetic::div_mod::lemma_div_pos_is_pos(mai, mbi);
                }
                assert(q <= mai && (mbi >= 2 ==> 2 * q <= mai)) by (nonlinear_arith)
                    requires
                        mbi >= 1,
                        q >= 0,
                        rm >= 0,
                        mai == mbi * q + rm,
                ;
                assert(rm != 0 ==> mbi >= 2);
                assert(i64::MIN <= fd <= i64::MAX as i128 + 1);
                assert(1000 * (i64::MIN as i128) <= 1000 * fd <= 1000 * (i64::MAX as i128 + 1))
                    by (nonlinear_arith)
                    requires
                        i64::MIN <= fd <= i64::MAX as i128 + 1,
                ;
            }
            Num { raw: clamp_i128(1000i128 * fd) }
        }
    }

    /// Remainder of truncated division; exact, never saturates.
    pub fn rem(self, other: Num) -> (r: Num)
        ensures
            r == self.s_rem(other),
    {
        if other.raw == 0 {
            Num { raw: 0 }
        } else {
            let ma: u64 = mag64(self.raw);
            let mb: u64 = mag64(other.raw);
            let mrem: u64 = ma % mb;
            proof {
                lemma_rem_mag(self.raw as int, other.raw as int);
            }
            if self.raw < 0 {
                Num { raw: (-(mrem as i128)) as i64 }
            } else {
                Num { raw: mrem as i64 }
            }
        }
    }
}

impl Num {
    /// The largest whole number not above this one.
    pub fn floor(self) -> (r: Num)
        ensures
            r == self.s_floor(),
    {
        let m: u64 = mag64(self.raw);
        let mrem: u64 = m % 1000;
        proof {
            vstd::arithmetic::div_mod::lemma_mod_bound(m as int, 1000);
            if self.raw < 0 {
                lemma_neg_mod(self.raw as int);
            }
        }
        if self.raw >= 0 {
            Num { raw: self.raw - mrem as i64 }
        } else if mrem == 0 {
            self
        } else {
            Num { raw: clamp_i128(self.raw as i128 - (1000 - mrem as i128)) }
        }
    }

    /// The smallest whole number not below this one.
    pub fn ceil(self) -> (r: Num)
        ensures
            r == self.s_ceil(),
    {
        let m: u64 = mag64(self.raw);
        let mrem: u64 = m % 1000;
        proof {
            vstd::arithmetic::div_mod::lemma_mod_bound(m as int, 1000);
            if self.raw < 0 {
                lemma_neg_mod(self.raw as int);
            }
        }
        if mrem == 0 {
            self
        } else if self.raw >= 0 {
            Num { raw: clamp_i128(self.raw as i128 + (1000 - mrem as i128)) }
        } else {
            Num { raw: self.raw + mrem as i64 }
        }
    }

    /// The nearest whole number, halves rounding away from zero.
    pub fn round(self) -> (r: Num)
        ensures
            r == self.s_round(),
    {
        let m: u128 = mag64(self.raw) as u128 + 500;
        let q: u128 = m / 1000;
        proof {
            vstd::arithmetic::div_mod::lemma_fundamental_div_mod(m as int, 1000);
            vstd::arithmetic::div_mod::lemma_mod_bound(m as int, 1000);
            assert(1000 * q <= m);
        }
        Num { raw: clamp_mag(self.raw < 0, 1000 * q) }
    }

    /// The fractional part, truncation's remainder.
    pub fn fract(self) -> (r: Num)
        ensures
            r == self.s_fract(),
    {
        let mrem: u64 = mag64(self.raw) % 1000;
        proof {
            vstd::arithmetic::div_mod::lemma_mod_bound(iabs(self.raw as int), 1000);
        }
        if self.raw < 0 {
            Num { raw: -(mrem as i64) }
        } else {
            Num { raw: mrem as i64 }
        }
    }

    /// The magnitude, saturated.
    pub fn abs(self) -> (r: Num)
        ensures
            r.raw as int == clip(iabs(self.raw as int)),
            r == self.s_abs(),
    {
        Num { raw: clamp_mag(false, mag64(self.raw) as u128) }
    }

    /// The square, truncated to thousandths and saturated.
    pub fn square(self) -> (r: Num)
        ensures
            r.raw as int == clip(trunc_div(self.raw * self.raw, SCALE as int)),
            r == self.s_square(),
    {
        self.mul(self)
    }

    /// The signed distance from the nearest whole number; below zero, one
    /// minus that distance.
    pub fn unnatural(self) -> (r: Num)
        ensures
            r == self.s_unnatural(),
    {
        let rounded: Num = self.round();
        let u: Num = self.sub(rounded);
        if self.raw < 0 {
            Num { raw: 1000 }.sub(u)
        } else {
            u
        }
    }

    /// The smaller of two numbers.
    pub fn min_num(self, other: Num) -> (r: Num)
        ensures
            r.raw == if self.raw <= other.raw {
                self.raw
            } else {
                other.raw
            },
            r == self.s_min(other),
    {
        if self.raw <= other.raw {
            self
        } else {
            other
        }
    }
}

/// The Euclidean remainder of a negative number by the scale, written through
/// its magnitude's remainder.
proof fn lemma_neg_mod(a: int)
    requires
        a < 0,
    ensures
        iabs(a) % 1000 == 0 ==> a % 1000 == 0,
        iabs(a) % 1000 != 0 ==> a % 1000 == 1000 - iabs(a) % 1000,
{
    let m = iabs(a);
    vstd::arithmetic::div_mod::lemma_fundamental_div_mod(m, 1000);
    vstd::arithmetic::div_mod::lemma_mod_bound(m, 1000);
    let q = m / 1000;
    let r = m % 1000;
    if r == 0 {
        vstd::arithmetic::div_mod::lemma_fundamental_div_mod_converse_mod(a, 1000, -q, 0);
    } else {
        vstd::arithmetic::div_mod::lemma_fundamental_div_mod_converse_mod(
            a,
            1000,
            -q - 1,
            1000 - r,
        );
    }
}

/// The signed remainder is the dividend's sign on the magnitudes' remainder.
proof fn lemma_rem_mag(a: int, b: int)
    requires
        b != 0,
    ensures
        a - trunc_div(a, b) * b == sign_mag(a < 0, iabs(a) % iabs(b)),
        iabs(a) % iabs(b) < iabs(b),
{
    let ma = iabs(a);
    let mb = iabs(b);
    vstd::arithmetic::div_mod::lemma_fundamental_div_mod(ma, mb);
    assert(ma == mb * (ma / mb) + ma % mb);
    assert(0 <= ma % mb < mb) by {
        vstd::arithmetic::div_mod::lemma_mod_bound(ma, mb);
    }
    let q0 = ma / mb;
    assert(trunc_div(a, b) == sign_mag((a < 0) != (b < 0), q0));
    assert(sign_mag((a < 0) != (b < 0), q0) * b == sign_mag(a < 0, q0 * mb)) by (nonlinear_arith)
        requires
            b != 0,
            q0 >= 0,
            mb == iabs(b),
    ;
    assert(a == sign_mag(a < 0, ma));
    assert(sign_mag(a < 0, ma) - sign_mag(a < 0, q0 * mb) == sign_mag(a < 0, ma - q0 * mb));
    assert(ma - q0 * mb == ma % mb) by (nonlinear_arith)
        requires
            ma == mb * q0 + ma % mb,
    ;
}

} // verus!
