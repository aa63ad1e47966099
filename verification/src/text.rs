//! The decimal text form of numbers.
//!
//! A number prints as an optional minus sign, the whole part's digits, and,
//! when the fractional part is not zero, a point and up to three fractional
//! digits with trailing zeros dropped. Reading accepts an optional minus
//! sign, one or more digits, and optionally a point followed by digits;
//! fractional digits past the third are ignored, and a whole part beyond the
//! representable range saturates. That grammar is deliberately narrower than
//! a float parser's: a leading plus sign, exponent forms such as `1e5`, and
//! the infinity and not-a-number words are not numbers here.

use vstd::prelude::*;

use crate::num::{clip, iabs, sign_mag, Num};

verus! {

/// The digit character for a value below ten.
pub open spec fn digit_char(d: int) -> char {
    if d == 0 {
        '0'
    } else if d == 1 {
        '1'
    } else if d == 2 {
        '2'
    } else if d == 3 {
        '3'
    } else if d == 4 {
        '4'
    } else if d == 5 {
        '5'
    } else if d == 6 {
        '6'
    } else if d == 7 {
        '7'
    } else if d == 8 {
        '8'
    } else {
        '9'
    }
}

/// The decimal digits of a whole number, most significant first.
pub open spec fn dec_seq(n: int) -> Seq<char>
    decreases n,
{
    if n < 10 {
        seq![digit_char(n)]
    } else {
        dec_seq(n / 10).push(digit_char(n % 10))
    }
}

/// The printed fractional digits for a thousandths remainder from one
/// through nine hundred ninety-nine: trailing zeros are dropped.
pub open spec fn frac_seq(f: int) -> Seq<char> {
    let d1 = f / 100;
    let d2 = (f / 10) % 10;
    let d3 = f % 10;
    if d3 == 0 {
        if d2 == 0 {
            seq![digit_char(d1)]
        } else {
            seq![digit_char(d1), digit_char(d2)]
        }
    } else {
        seq![digit_char(d1), digit_char(d2), digit_char(d3)]
    }
}

/// The decimal text of a number held as `raw` thousandths.
pub open spec fn num_text(raw: int) -> Seq<char> {
    let m = iabs(raw);
    let body = dec_seq(m / 1000) + if m % 1000 == 0 {
        Seq::<char>::empty()
    } else {
        seq!['.'] + frac_seq(m % 1000)
    };
    if raw < 0 {
        seq!['-'] + body
    } else {
        body
    }
}

/// Appends one digit character.
fn push_digit(s: &mut String, d: u64)
    requires
        d < 10,
    ensures
        final(s)@ == old(s)@ + seq![digit_char(d as int)],
{
    let lit: &str = match d {
        0 => "0",
        1 => "1",
        2 => "2",
        3 => "3",
        4 => "4",
        5 => "5",
        6 => "6",
        7 => "7",
        8 => "8",
        _ => "9",
    };
    proof {
        reveal_strlit("0");
        reveal_strlit("1");
        reveal_strlit("2");
        reveal_strlit("3");
        reveal_strlit("4");
        reveal_strlit("5");
        reveal_strlit("6");
        reveal_strlit("7");
        reveal_strlit("8");
        reveal_strlit("9");
        assert(lit@ =~= seq![digit_char(d as int)]);
    }
    s.append(lit);
}

/// Appends the decimal digits of a whole number.
fn push_dec(s: &mut String, n: u64)
    ensures
        final(s)@ == old(s)@ + dec_seq(n as int),
    decreases n,
{
    if n < 10 {
        push_digit(s, n);
    } else {
        push_dec(s, n / 10);
        push_digit(s, n % 10);
        assert(s@ =~= old(s)@ + dec_seq(n as int));
    }
}

/// Magnitude of an `i64`, exact also for the smallest value.
fn mag64(x: i64) -> (m: u64)
    ensures
        m == iabs(x as int),
{
    if x < 0 {
        (-(x as i128)) as u64
    } else {
        x as u64
    }
}

impl Num {
    /// The decimal text of this number.
    pub fn to_text(self) -> (r: String)
        ensures
            r@ == num_text(self.raw as int),
    {
        let m: u64 = mag64(self.raw);
        let ip: u64 = m / 1000;
        let fp: u64 = m % 1000;
        proof {
            vstd::arithmetic::div_mod::lemma_mod_bound(m as int, 1000);
        }
        let mut s = String::new();
        if self.raw < 0 {
            proof {
                reveal_strlit("-");
                assert("-"@ =~= seq!['-']);
            }
            s.append("-");
        }
        push_dec(&mut s, ip);
        if fp != 0 {
            proof {
                reveal_strlit(".");
                assert("."@ =~= seq!['.']);
            }
            s.append(".");
            let d1: u64 = fp / 100;
            let d2: u64 = (fp / 10) % 10;
            let d3: u64 = fp % 10;
            proof {
                vstd::arithmetic::div_mod::lemma_mod_bound((fp / 10) as int, 10);
                vstd::arithmetic::div_mod::lemma_mod_bound(fp as int, 10);
            }
            push_digit(&mut s, d1);
            if d2 != 0 || d3 != 0 {
                push_digit(&mut s, d2);
            }
            if d3 != 0 {
                push_digit(&mut s, d3);
            }
        }
        proof {
            assert(s@ =~= num_text(self.raw as int));
        }
        s
    }
}

/// A digit character.
pub open spec fn is_digit(c: char) -> bool {
    48 <= c as u32 <= 57
}

/// The value of a digit character.
pub open spec fn digit_val(c: char) -> int {
    c as u32 - 48
}

/// Whether every character is a digit.
pub open spec fn all_digits(s: Seq<char>) -> bool {
    forall|i: int| 0 <= i < s.len() ==> is_digit(#[trigger] s[i])
}

/// The value of a digit run, most significant first.
pub open spec fn digits_val(s: Seq<char>) -> int
    decreases s.len(),
{
    if s.len() == 0 {
        0
    } else {
        digits_val(s.drop_last()) * 10 + digit_val(s.last())
    }
}

/// The index of the first point, or the length when there is none.
pub open spec fn find_dot(s: Seq<char>) -> int
    decreases s.len(),
{
    if s.len() == 0 {
        0
    } else if s[0] == '.' {
        0
    } else {
        1 + find_dot(s.drop_first())
    }
}

/// The thousandths read from the fractional digits: the first three count,
/// shorter runs are padded with zeros.
pub open spec fn frac3(s: Seq<char>) -> int {
    if s.len() == 0 {
        0
    } else if s.len() == 1 {
        digits_val(s) * 100
    } else if s.len() == 2 {
        digits_val(s) * 10
    } else {
        digits_val(s.subrange(0, 3))
    }
}

/// The raw thousandths a piece of text denotes, or nothing when the text is
/// not a number: an optional minus sign, one or more digits, optionally a
/// point and further digits. The whole saturates into the `i64` range.
pub open spec fn parse_raw(s: Seq<char>) -> Option<int> {
    let neg = s.len() > 0 && s[0] == '-';
    let body = if neg {
        s.drop_first()
    } else {
        s
    };
    let d = find_dot(body);
    let ip = body.subrange(0, d);
    let fp = if d < body.len() {
        body.subrange(d + 1, body.len() as int)
    } else {
        Seq::<char>::empty()
    };
    if ip.len() == 0 || !all_digits(ip) || !all_digits(fp) {
        None
    } else {
        Some(clip(sign_mag(neg, digits_val(ip) * 1000 + frac3(fp))))
    }
}

/// `find_dot` names the first point.
proof fn lemma_find_dot(s: Seq<char>)
    ensures
        0 <= find_dot(s) <= s.len(),
        find_dot(s) < s.len() ==> s[find_dot(s)] == '.',
        forall|j: int| 0 <= j < find_dot(s) ==> s[j] != '.',
    decreases s.len(),
{
    if s.len() > 0 && s[0] != '.' {
        lemma_find_dot(s.drop_first());
        assert forall|j: int| 0 <= j < find_dot(s) implies s[j] != '.' by {
            if j > 0 {
                assert(s[j] == s.drop_first()[j - 1]);
            }
        }
    }
}

/// Appending a digit multiplies the run's value by ten and adds the digit.
proof fn lemma_digits_val_push(s: Seq<char>, c: char)
    ensures
        digits_val(s.push(c)) == digits_val(s) * 10 + digit_val(c),
{
    assert(s.push(c).drop_last() =~= s);
}

/// Saturation cap for the whole part while reading: one past the largest
/// magnitude an `i64` holds.
const CAP: u128 = 0x8000_0000_0000_0000;

/// Saturates a signed magnitude into the `i64` range.
fn clamp_mag(neg: bool, m: u128) -> (r: i64)
    ensures
        r as int == clip(sign_mag(neg, m as int)),
{
    if neg {
        if m >= 0x8000_0000_0000_0000u128 {
            i64::MIN
        } else {
            (-(m as i128)) as i64
        }
    } else {
        if m > i64::MAX as u128 {
            i64::MAX
        } else {
            m as i64
        }
    }
}

/// Two magnitudes past the largest `i64` saturate alike.
proof fn lemma_clip_big(neg: bool, m1: int, m2: int)
    requires
        m1 > i64::MAX,
        m2 > i64::MAX,
    ensures
        clip(sign_mag(neg, m1)) == clip(sign_mag(neg, m2)),
{
}

impl Num {
    /// Reads a number from decimal text; nothing when the text is not a
    /// number.
    pub fn parse(s: &str) -> (r: Option<Num>)
        ensures
            match r {
                Some(v) => parse_raw(s@) == Some(v.raw as int),
                None => parse_raw(s@) is None,
            },
    {
        let n: usize = s.unicode_len();
        let neg: bool = n > 0 && s.get_char(0) == '-';
        let base: usize = if neg {
            1
        } else {
            0
        };
        let ghost body = if neg {
            s@.drop_first()
        } else {
            s@
        };
        proof {
            assert(body =~= s@.subrange(base as int, n as int));
            lemma_find_dot(body);
            assert(('.') as u32 == 46);
        }
        let mut i: usize = base;
        let mut acc: u128 = 0;
        while i < n
            invariant
                base <= i <= n,
                n == s@.len(),
                base == 1 <==> neg,
                neg == (s@.len() > 0 && s@[0] == '-'),
                body == (if neg {
                    s@.drop_first()
                } else {
                    s@
                }),
                body == s@.subrange(base as int, n as int),
                forall|j: int| base <= j < i ==> is_digit(#[trigger] s@[j]),
                digits_val(s@.subrange(base as int, i as int)) >= 0,
                digits_val(s@.subrange(base as int, i as int)) <= CAP ==> acc == digits_val(
                    s@.subrange(base as int, i as int),
                ),
                digits_val(s@.subrange(base as int, i as int)) > CAP ==> acc == CAP,
                acc <= CAP,
            ensures
                base <= i <= n,
                forall|j: int| base <= j < i ==> is_digit(#[trigger] s@[j]),
                digits_val(s@.subrange(base as int, i as int)) >= 0,
                digits_val(s@.subrange(base as int, i as int)) <= CAP ==> acc == digits_val(
                    s@.subrange(base as int, i as int),
                ),
                digits_val(s@.subrange(base as int, i as int)) > CAP ==> acc == CAP,
                acc <= CAP,
                i < n ==> s@[i as int] == '.',
            decreases n - i,
        {
            let c = s.get_char(i);
            if c == '.' {
                break ;
            }
            let u: u32 = c as u32;
            if u < 48 || u > 57 {
                proof {
                    lemma_find_dot(body);
                    assert(('.') as u32 == 46);
                    let rel = i - base;
                    let fd = find_dot(body);
                    assert(body[rel] == s@[i as int]);
                    assert(fd >= rel) by {
                        if fd < rel {
                            assert(body[fd] == s@[fd + base]);
                            assert(is_digit(body[fd]));
                        }
                    }
                    assert(fd > rel);
                    assert(!is_digit(body.subrange(0, fd)[rel]));
                    assert(parse_raw(s@) is None);
                }
                return None;
            }
            proof {
                assert(s@.subrange(base as int, i + 1) =~= s@.subrange(base as int, i as int).push(
                    s@[i as int],
                ));
                lemma_digits_val_push(s@.subrange(base as int, i as int), s@[i as int]);
            }
            let d: u128 = (u - 48) as u128;
            let grown: u128 = acc * 10 + d;
            acc = if grown > CAP {
                CAP
            } else {
                grown
            };
            i = i + 1;
        }
        let ghost fd = find_dot(body);
        let ghost rel = i - base;
        if i == base {
            proof {
                assert(('.') as u32 == 46);
                if fd > 0 {
                    assert(body[0] == s@[base as int]);
                    assert(body[0] == '.' ==> fd == 0);
                    assert(is_digit(body[0]) ==> false);
                }
                assert(body.subrange(0, 0) =~= Seq::<char>::empty());
                assert(parse_raw(s@) is None);
            }
            return None;
        }
        proof {
            assert(('.') as u32 == 46);
            assert(fd == rel) by {
                if fd < rel {
                    assert(body[fd] == s@[fd + base]);
                    assert(is_digit(body[fd]));
                } else if fd > rel && rel < body.len() {
                    assert(body[rel] == s@[i as int]);
                }
            }
            assert(body.subrange(0, fd) =~= s@.subrange(base as int, i as int));
        }
        let ghost ip = s@.subrange(base as int, i as int);
        let mut f: u64 = 0;
        let mut cnt: u64 = 0;
        if i < n {
            let mut j: usize = i + 1;
            while j < n
                invariant
                    i + 1 <= j <= n,
                    i == rel + base,
                    base <= i < n,
                    n == s@.len(),
                    base == 1 <==> neg,
                    neg == (s@.len() > 0 && s@[0] == '-'),
                    body == (if neg {
                        s@.drop_first()
                    } else {
                        s@
                    }),
                    body == s@.subrange(base as int, n as int),
                    fd == rel,
                    fd == find_dot(body),
                    forall|k: int| i + 1 <= k < j ==> is_digit(#[trigger] s@[k]),
                    cnt <= 3,
                    j - (i + 1) >= 3 ==> cnt == 3,
                    j - (i + 1) < 3 ==> cnt == j - i - 1,
                    f == digits_val(s@.subrange(i + 1, i + 1 + cnt)),
                    cnt == 0 ==> f == 0,
                    cnt == 1 ==> f <= 9,
                    cnt == 2 ==> f <= 99,
                    cnt == 3 ==> f <= 999,
                decreases n - j,
            {
                let c = s.get_char(j);
                let u: u32 = c as u32;
                if u < 48 || u > 57 {
                    proof {
                        let fpv = body.subrange(rel + 1, body.len() as int);
                        assert(fpv =~= s@.subrange(i + 1, n as int));
                        assert(fpv[j - (i + 1)] == s@[j as int]);
                        assert(!is_digit(fpv[j - (i + 1)]));
                        assert(parse_raw(s@) is None);
                    }
                    return None;
                }
                if cnt < 3 {
                    proof {
                        assert(s@.subrange(i + 1, i + 1 + cnt + 1) =~= s@.subrange(
                            i + 1,
                            i + 1 + cnt,
                        ).push(s@[j as int]));
                        lemma_digits_val_push(s@.subrange(i + 1, i + 1 + cnt), s@[j as int]);
                    }
                    f = f * 10 + (u - 48) as u64;
                    cnt = cnt + 1;
                }
                j = j + 1;
            }
        }
        let f_scaled: u64 = if cnt == 0 {
            0
        } else if cnt == 1 {
            f * 100
        } else if cnt == 2 {
            f * 10
        } else {
            f
        };
        let ghost fp = if fd < body.len() {
            body.subrange(fd + 1, body.len() as int)
        } else {
            Seq::<char>::empty()
        };
        proof {
            if i < n {
                assert(fp =~= s@.subrange(i + 1, n as int));
                if fp.len() == 1 {
                    assert(s@.subrange(i + 1, i + 1 + cnt) =~= fp);
                } else if fp.len() == 2 {
                    assert(s@.subrange(i + 1, i + 1 + cnt) =~= fp);
                } else if fp.len() >= 3 {
                    assert(s@.subrange(i + 1, i + 1 + cnt) =~= fp.subrange(0, 3));
                }
            } else {
                assert(fp =~= Seq::<char>::empty());
            }
            assert(frac3(fp) == f_scaled);
        }
        let mag: u128 = acc * 1000 + f_scaled as u128;
        proof {
            let dv = digits_val(ip);
            if dv > CAP {
                assert(dv * 1000 >= (CAP + 1) * 1000) by (nonlinear_arith)
                    requires
                        dv >= CAP + 1,
                ;
                lemma_clip_big(neg, dv * 1000 + frac3(fp), mag as int);
            }
        }
        Some(Num { raw: clamp_mag(neg, mag) })
    }
}

} // verus!
