//! Exact decimal numbers.
//!
//! Exchanges transmit prices and quantities as decimal strings to preserve
//! precision. This module keeps them exact: a [`Decimal`] is a signed
//! mantissa with a base-ten scale, normalized so that the fractional part
//! carries no trailing zeros, and [`parse_decimal`] turns a plain decimal
//! string (optional minus sign, digits, optional fraction) into one.

use vstd::prelude::*;
use vstd::string::StrSliceExecFns;

verus! {

/// An exact decimal value: `mantissa / 10^scale`.
///
/// Invariant (`wf`): the fractional part has no trailing zeros, so two
/// `Decimal`s produced by [`parse_decimal`] denote the same number exactly
/// when they are equal field by field.
#[derive(Debug, Clone, Copy, PartialEq, Eq, Structural, Hash)]
pub struct Decimal {
    pub mantissa: i64,
    pub scale: usize,
}

impl Decimal {
    /// Normal form: a nonzero scale never ends in a zero digit.
    pub open spec fn wf(&self) -> bool {
        self.scale > 0 ==> self.mantissa % 10 != 0
    }

    /// Construct a decimal from raw parts, without normalizing.
    pub fn from_parts(mantissa: i64, scale: usize) -> (r: Decimal)
        ensures
            r == (Decimal { mantissa, scale }),
    {
        Decimal { mantissa, scale }
    }
}

/// Whether `c` is an ASCII decimal digit.
pub open spec fn is_digit(c: char) -> bool {
    '0' <= c && c <= '9'
}

/// Numeric value of a digit character.
pub open spec fn digit_val(c: char) -> int {
    c as int - '0' as int
}

/// Whether every character of `s` is a digit.
pub open spec fn all_digits(s: Seq<char>) -> bool {
    forall|i: int| 0 <= i < s.len() ==> is_digit(#[trigger] s[i])
}

/// The integer denoted by a digit string (most significant first).
pub open spec fn digits_val(s: Seq<char>) -> int
    decreases s.len(),
{
    if s.len() == 0 {
        0
    } else {
        digits_val(s.drop_last()) * 10 + digit_val(s.last())
    }
}

/// Number of leading digit characters of `s`.
pub open spec fn digits_prefix_len(s: Seq<char>) -> int
    decreases s.len(),
{
    if s.len() == 0 || !is_digit(s[0]) {
        0
    } else {
        1 + digits_prefix_len(s.skip(1))
    }
}

/// Drop trailing zero digits from a mantissa/scale pair until the scale
/// is exhausted or the mantissa no longer divides by ten.
pub open spec fn spec_normalize(m: int, sc: int) -> (int, int)
    decreases sc,
{
    if sc > 0 && m % 10 == 0 {
        spec_normalize(m / 10, sc - 1)
    } else {
        (m, sc)
    }
}

/// The decimal denoted by the digit strings `int_part` and `frac_part`
/// with sign `neg`, or `None` if the combined mantissa does not fit in
/// an `i64`.
pub open spec fn spec_make_decimal(neg: bool, int_part: Seq<char>, frac_part: Seq<char>) -> Option<
    Decimal,
> {
    let m = digits_val(int_part + frac_part);
    if m > i64::MAX {
        None
    } else {
        let (m2, sc2) = spec_normalize(m, frac_part.len() as int);
        Some(
            Decimal {
                mantissa: (if neg {
                    -m2
                } else {
                    m2
                }) as i64,
                scale: sc2 as usize,
            },
        )
    }
}

/// What [`parse_decimal`] returns on `s`: `Some` exactly for strings of the
/// form `-? digits ( '.' digits )?` whose combined digit string fits in an
/// `i64` mantissa.
pub open spec fn spec_parse_decimal(s: Seq<char>) -> Option<Decimal> {
    let neg = s.len() > 0 && s[0] == '-';
    let body = if neg {
        s.skip(1)
    } else {
        s
    };
    let k = digits_prefix_len(body);
    if k < 1 {
        None
    } else if k == body.len() {
        spec_make_decimal(neg, body, Seq::empty())
    } else if body[k] == '.' && body.len() > k + 1 && all_digits(body.skip(k + 1)) {
        spec_make_decimal(neg, body.take(k), body.skip(k + 1))
    } else {
        None
    }
}

/// A digit string denotes a nonnegative value.
pub proof fn lemma_digits_val_nonneg(s: Seq<char>)
    requires
        all_digits(s),
    ensures
        digits_val(s) >= 0,
    decreases s.len(),
{
    if s.len() > 0 {
        assert(all_digits(s.drop_last())) by {
            assert(forall|i: int|
                0 <= i < s.drop_last().len() ==> is_digit(#[trigger] s.drop_last()[i]) && s.drop_last()[i]
                    == s[i]);
        }
        lemma_digits_val_nonneg(s.drop_last());
    }
}

/// `digits_prefix_len` is the position of the first non-digit.
proof fn lemma_digits_prefix_len(s: Seq<char>, k: int)
    requires
        0 <= k <= s.len(),
        forall|i: int| 0 <= i < k ==> is_digit(#[trigger] s[i]),
        k == s.len() || !is_digit(s[k]),
    ensures
        digits_prefix_len(s) == k,
    decreases s.len(),
{
    if k == 0 {
    } else {
        let t = s.skip(1);
        assert(forall|i: int| 0 <= i < k - 1 ==> is_digit(#[trigger] t[i]) && t[i] == s[i + 1]);
        assert(k - 1 == t.len() || !is_digit(t[k - 1]));
        lemma_digits_prefix_len(t, k - 1);
    }
}

/// Appending digits never decreases the denoted value.
pub proof fn lemma_digits_val_extend(s: Seq<char>, t: Seq<char>)
    requires
        all_digits(s),
        all_digits(t),
    ensures
        digits_val(s) <= digits_val(s + t),
    decreases t.len(),
{
    if t.len() == 0 {
        assert(s + t =~= s);
    } else {
        let t2 = t.drop_last();
        assert(all_digits(t2)) by {
            assert(forall|i: int| 0 <= i < t2.len() ==> is_digit(#[trigger] t2[i]) && t2[i] == t[i]);
        }
        lemma_digits_val_extend(s, t2);
        assert((s + t).drop_last() =~= s + t2);
        assert(all_digits(s + t2));
        lemma_digits_val_nonneg(s + t2);
        assert(digits_val(s + t) == digits_val(s + t2) * 10 + digit_val((s + t).last()));
        assert(is_digit(t.last()));
        assert((s + t).last() == t.last());
    }
}

/// What [`parse_i64`] returns on `s`: the integer denoted by an optional
/// minus sign and digits, `None` for any other shape or where the
/// magnitude exceeds `i64::MAX`.
pub open spec fn spec_parse_i64(s: Seq<char>) -> Option<i64> {
    let neg = s.len() > 0 && s[0] == '-';
    let body = if neg {
        s.skip(1)
    } else {
        s
    };
    if body.len() >= 1 && all_digits(body) && digits_val(body) <= i64::MAX {
        Some(
            (if neg {
                -digits_val(body)
            } else {
                digits_val(body)
            }) as i64,
        )
    } else {
        None
    }
}

/// Parse an optionally signed digit string as an `i64`.
pub fn parse_i64(s: &str) -> (r: Option<i64>)
    ensures
        r == spec_parse_i64(s@),
{
    let n = s.unicode_len();
    let neg = n > 0 && s.get_char(0) == '-';
    let start: usize = if neg {
        1
    } else {
        0
    };
    let ghost body = s@.skip(start as int);
    proof {
        assert(body =~= if neg {
            s@.skip(1)
        } else {
            s@
        });
        assert(forall|i: int| 0 <= i < body.len() ==> body[i] == s@[i + start]);
    }
    if start == n {
        return None;
    }
    let mut acc: i64 = 0;
    let mut i: usize = start;
    while i < n
        invariant
            start <= i <= n,
            start < n,
            n == s@.len(),
            body == s@.skip(start as int),
            body.len() == n - start,
            neg == (s@.len() > 0 && s@[0] == '-'),
            start == (if neg {
                1int
            } else {
                0int
            }),
            body == (if neg {
                s@.skip(1)
            } else {
                s@
            }),
            0 <= acc,
            forall|j: int| start <= j < i ==> is_digit(#[trigger] s@[j]),
            acc == digits_val(s@.subrange(start as int, i as int)),
        decreases n - i,
    {
        let c = s.get_char(i);
        if !is_digit_char(c) {
            proof {
                assert(!is_digit(body[i - start]));
            }
            return None;
        }
        let d: u32 = (c as u32) - 48;
        let ghost prefix = s@.subrange(start as int, i as int);
        proof {
            assert(d == digit_val(c));
        }
        let next = match acc.checked_mul(10) {
            Some(x) => x.checked_add(d as i64),
            None => None,
        };
        match next {
            Some(x) => {
                proof {
                    assert(s@.subrange(start as int, i + 1).drop_last() =~= prefix);
                    assert(s@.subrange(start as int, i + 1).last() == c);
                }
                acc = x;
                i = i + 1;
            },
            None => {
                proof {
                    if all_digits(body) {
                        let over = prefix.push(c);
                        let rest = s@.subrange(i + 1, n as int);
                        assert(over.drop_last() =~= prefix);
                        assert(digits_val(over) == acc * 10 + d);
                        assert(digits_val(over) > i64::MAX);
                        assert(body =~= over + rest);
                        assert(all_digits(over)) by {
                            assert(forall|l: int|
                                0 <= l < over.len() ==> #[trigger] over[l] == body[l]);
                        }
                        assert(all_digits(rest)) by {
                            assert(forall|l: int|
                                0 <= l < rest.len() ==> #[trigger] rest[l] == body[l + over.len()]);
                        }
                        lemma_digits_val_extend(over, rest);
                        assert(digits_val(body) > i64::MAX);
                    }
                }
                return None;
            },
        }
    }
    proof {
        assert(s@.subrange(start as int, n as int) =~= body);
        assert(all_digits(body));
    }
    if neg {
        Some(-acc)
    } else {
        Some(acc)
    }
}

/// Whether `c` is an ASCII decimal digit.
fn is_digit_char(c: char) -> (r: bool)
    ensures
        r == is_digit(c),
{
    '0' <= c && c <= '9'
}

/// Parse a plain decimal string of the form `-? digits ( '.' digits )?`
/// into an exact, normalized [`Decimal`]. Any other shape, and any string
/// whose combined digit string exceeds the `i64` mantissa, yields `None`.
pub fn parse_decimal(s: &str) -> (r: Option<Decimal>)
    ensures
        r == spec_parse_decimal(s@),
        r is Some ==> r->0.wf(),
{
    let n = s.unicode_len();
    let neg = n > 0 && s.get_char(0) == '-';
    let start: usize = if neg {
        1
    } else {
        0
    };
    let ghost body = s@.skip(start as int);
    proof {
        assert(body =~= if neg {
            s@.skip(1)
        } else {
            s@
        });
        assert(forall|i: int| 0 <= i < body.len() ==> body[i] == s@[i + start]);
    }
    // End of the run of integer digits.
    let mut k: usize = start;
    while k < n && is_digit_char(s.get_char(k))
        invariant
            start <= k <= n,
            n == s@.len(),
            start <= n,
            forall|j: int| start <= j < k ==> is_digit(#[trigger] s@[j]),
        decreases n - k,
    {
        k = k + 1;
    }
    proof {
        assert(forall|i: int| 0 <= i < k - start ==> is_digit(#[trigger] body[i]));
        assert(k - start == body.len() || !is_digit(body[k - start]));
        lemma_digits_prefix_len(body, k - start);
    }
    if k == start {
        return None;
    }
    // Fraction, if any.
    let mut fstart: usize = n;
    if k < n {
        if s.get_char(k) != '.' {
            proof {
                assert(body[k - start] == s@[k as int]);
            }
            return None;
        }
        if k + 1 == n {
            proof {
                assert(body.len() == n - start);
            }
            return None;
        }
        fstart = k + 1;
        let mut j: usize = fstart;
        while j < n
            invariant
                fstart <= j <= n,
                n == s@.len(),
                start <= k < n,
                fstart == k + 1,
                body == s@.skip(start as int),
                body == (if neg {
                    s@.skip(1)
                } else {
                    s@
                }),
                neg == (s@.len() > 0 && s@[0] == '-'),
                start == (if neg {
                    1int
                } else {
                    0int
                }),
                digits_prefix_len(body) == k - start,
                body.len() == n - start,
                body[k - start] == '.',
                forall|l: int| fstart <= l < j ==> is_digit(#[trigger] s@[l]),
            decreases n - j,
        {
            if !is_digit_char(s.get_char(j)) {
                proof {
                    let fp0 = body.skip(k - start + 1);
                    assert(body[k - start] == s@[k as int]);
                    assert(fp0[j - fstart] == body[j - start]);
                    assert(body[j - start] == s@[j as int]);
                    assert(!is_digit(fp0[j - fstart]));
                }
                return None;
            }
            j = j + 1;
        }
    }
    let ghost ip: Seq<char> = if k == n {
        body
    } else {
        body.take(k - start)
    };
    let ghost fp: Seq<char> = if k == n {
        Seq::empty()
    } else {
        body.skip(k - start + 1)
    };
    let ghost digs = s@.subrange(start as int, k as int) + s@.subrange(fstart as int, n as int);
    proof {
        assert(spec_parse_decimal(s@) == spec_make_decimal(neg, ip, fp)) by {
            if k < n {
                assert(body[k - start] == '.');
                assert(forall|l: int|
                    0 <= l < fp.len() ==> is_digit(#[trigger] fp[l]) && fp[l] == s@[l + fstart]);
            }
        }
        assert(ip + fp =~= digs) by {
            assert(ip =~= s@.subrange(start as int, k as int));
            assert(fp =~= s@.subrange(fstart as int, n as int));
        }
        assert(all_digits(digs)) by {
            assert(forall|l: int|
                0 <= l < k - start ==> #[trigger] digs[l] == s@[l + start] && is_digit(s@[l + start]));
            assert(forall|l: int|
                k - start <= l < digs.len() ==> #[trigger] digs[l] == s@[l - (k - start) + fstart]
                    && is_digit(s@[l - (k - start) + fstart]));
        }
        assert(fp.len() == n - fstart);
    }
    // Accumulate the combined digit string into the mantissa.
    let mut acc: i64 = 0;
    let mut i: usize = start;
    while i < k
        invariant
            start <= i <= k <= n,
            n == s@.len(),
            fstart <= n,
            k <= fstart,
            forall|j: int| start <= j < k ==> is_digit(#[trigger] s@[j]),
            forall|j: int| fstart <= j < n ==> is_digit(#[trigger] s@[j]),
            0 <= acc,
            acc == digits_val(s@.subrange(start as int, i as int)),
            digs == s@.subrange(start as int, k as int) + s@.subrange(fstart as int, n as int),
            all_digits(digs),
            spec_parse_decimal(s@) == spec_make_decimal(neg, ip, fp),
            ip + fp == digs,
            fp.len() == n - fstart,
        decreases k - i,
    {
        let c = s.get_char(i);
        let d: u32 = (c as u32) - 48;
        let ghost prefix = s@.subrange(start as int, i as int);
        proof {
            assert(is_digit(s@[i as int]));
            assert(d == digit_val(c));
        }
        let next = match acc.checked_mul(10) {
            Some(x) => x.checked_add(d as i64),
            None => None,
        };
        match next {
            Some(x) => {
                proof {
                    assert(s@.subrange(start as int, i + 1).drop_last() =~= prefix);
                    assert(s@.subrange(start as int, i + 1).last() == c);
                }
                acc = x;
                i = i + 1;
            },
            None => {
                proof {
                    let over = prefix.push(c);
                    let rest = s@.subrange(i + 1, k as int) + s@.subrange(
                        fstart as int,
                        n as int,
                    );
                    assert(over.drop_last() =~= prefix);
                    assert(digits_val(over) == acc * 10 + d);
                    assert(digits_val(over) > i64::MAX);
                    assert(digs =~= over + rest);
                    assert(all_digits(over)) by {
                        assert(forall|l: int|
                            0 <= l < over.len() ==> #[trigger] over[l] == digs[l]);
                    }
                    assert(all_digits(rest)) by {
                        assert(forall|l: int|
                            0 <= l < rest.len() ==> #[trigger] rest[l] == digs[l + over.len()]);
                    }
                    lemma_digits_val_extend(over, rest);
                }
                return None;
            },
        }
    }
    proof {
        assert(s@.subrange(start as int, k as int) + s@.subrange(fstart as int, fstart as int)
            =~= s@.subrange(start as int, k as int));
    }
    let mut i2: usize = fstart;
    while i2 < n
        invariant
            fstart <= i2 <= n,
            n == s@.len(),
            start <= k <= fstart,
            forall|j: int| fstart <= j < n ==> is_digit(#[trigger] s@[j]),
            0 <= acc,
            acc == digits_val(
                s@.subrange(start as int, k as int) + s@.subrange(fstart as int, i2 as int),
            ),
            digs == s@.subrange(start as int, k as int) + s@.subrange(fstart as int, n as int),
            all_digits(digs),
            spec_parse_decimal(s@) == spec_make_decimal(neg, ip, fp),
            ip + fp == digs,
            fp.len() == n - fstart,
        decreases n - i2,
    {
        let c = s.get_char(i2);
        let d: u32 = (c as u32) - 48;
        let ghost prefix = s@.subrange(start as int, k as int) + s@.subrange(
            fstart as int,
            i2 as int,
        );
        proof {
            assert(is_digit(s@[i2 as int]));
            assert(d == digit_val(c));
        }
        let next = match acc.checked_mul(10) {
            Some(x) => x.checked_add(d as i64),
            None => None,
        };
        match next {
            Some(x) => {
                proof {
                    let stepped = s@.subrange(start as int, k as int) + s@.subrange(
                        fstart as int,
                        i2 + 1,
                    );
                    assert(stepped.drop_last() =~= prefix);
                    assert(stepped.last() == c);
                }
                acc = x;
                i2 = i2 + 1;
            },
            None => {
                proof {
                    let over = prefix.push(c);
                    let rest = s@.subrange(i2 + 1, n as int);
                    assert(over.drop_last() =~= prefix);
                    assert(digits_val(over) == acc * 10 + d);
                    assert(digits_val(over) > i64::MAX);
                    assert(digs =~= over + rest);
                    assert(all_digits(over)) by {
                        assert(forall|l: int|
                            0 <= l < over.len() ==> #[trigger] over[l] == digs[l]);
                    }
                    assert(all_digits(rest)) by {
                        assert(forall|l: int|
                            0 <= l < rest.len() ==> #[trigger] rest[l] == digs[l + over.len()]);
                    }
                    lemma_digits_val_extend(over, rest);
                }
                return None;
            },
        }
    }
    proof {
        assert(digits_val(digs) == acc);
    }
    // Normalize: drop trailing zeros of the fraction.
    let mut m: i64 = acc;
    let mut sc: usize = n - fstart;
    while sc > 0 && m % 10 == 0
        invariant
            0 <= m,
            0 <= sc,
            spec_normalize(m as int, sc as int) == spec_normalize(acc as int, (n - fstart) as int),
        decreases sc,
    {
        m = m / 10;
        sc = sc - 1;
    }
    let mantissa: i64 = if neg {
        -m
    } else {
        m
    };
    proof {
        assert(spec_normalize(m as int, sc as int) == (m as int, sc as int));
    }
    Some(Decimal { mantissa, scale: sc })
}

} // verus!
