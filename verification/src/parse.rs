//! Reading a monetary value out of text. The accepted shape is an
//! optional sign, decimal digits, and at most one point followed by at
//! most three fraction digits (the resolution of `Money`); at least one
//! digit must be present, and the value must fit an `i64` mil count.

use vstd::prelude::*;

use crate::money::Money;

verus! {

/// Whether `c` is a decimal digit.
pub open spec fn is_digit(c: char) -> bool {
    48 <= c as u32 <= 57
}

/// The numeric value of a decimal digit.
pub open spec fn digit_val(c: char) -> int {
    c as u32 - 48
}

/// Whether every character of `s` is a decimal digit.
pub open spec fn all_digits(s: Seq<char>) -> bool {
    forall|k: int| 0 <= k < s.len() ==> is_digit(s[k])
}

/// The value of `s` read as a big-endian run of decimal digits; the
/// empty run reads as zero.
pub open spec fn digits_val(s: Seq<char>) -> int
    decreases s.len(),
{
    if s.len() == 0 {
        0
    } else {
        digits_val(s.drop_last()) * 10 + digit_val(s.last())
    }
}

/// Ten to the `n`th power.
pub open spec fn pow10(n: nat) -> int
    decreases n,
{
    if n == 0 {
        1
    } else {
        10 * pow10((n - 1) as nat)
    }
}

/// The index of the first `'.'` in `s`, or `s.len()` if there is none.
pub open spec fn first_dot(s: Seq<char>) -> int
    decreases s.len(),
{
    if s.len() == 0 {
        0
    } else if s[0] == '.' {
        0
    } else {
        1 + first_dot(s.drop_first())
    }
}

/// How many mils one unit of the fraction part stands for, by the
/// number of fraction digits written.
pub open spec fn frac_scale(l: int) -> int {
    if l <= 0 {
        1000
    } else if l == 1 {
        100
    } else if l == 2 {
        10
    } else {
        1
    }
}

/// The mil count that the text `s` denotes, or `None` where `s` is not
/// a well-formed number or does not fit an `i64`.
pub open spec fn spec_parse_money(s: Seq<char>) -> Option<int> {
    let negative = s.len() > 0 && s[0] == '-';
    let t = if s.len() > 0 && (s[0] == '-' || s[0] == '+') {
        s.drop_first()
    } else {
        s
    };
    let d = first_dot(t);
    let ipart = t.subrange(0, d);
    let fpart = if d < t.len() {
        t.subrange(d + 1, t.len() as int)
    } else {
        Seq::<char>::empty()
    };
    if all_digits(ipart) && all_digits(fpart) && ipart.len() + fpart.len() >= 1 && fpart.len()
        <= 3 {
        let v = digits_val(ipart) * 1000 + digits_val(fpart) * frac_scale(fpart.len() as int);
        if v <= i64::MAX as int {
            Some(if negative { -v } else { v })
        } else {
            None
        }
    } else {
        None
    }
}

pub proof fn lemma_first_dot_bounds(s: Seq<char>)
    ensures
        0 <= first_dot(s) <= s.len(),
        forall|k: int| 0 <= k < first_dot(s) ==> s[k] != '.',
        first_dot(s) < s.len() ==> s[first_dot(s)] == '.',
    decreases s.len(),
{
    if s.len() > 0 && s[0] != '.' {
        lemma_first_dot_bounds(s.drop_first());
        assert forall|k: int| 0 <= k < first_dot(s) implies s[k] != '.' by {
            if k >= 1 {
                assert(s.drop_first()[k - 1] != '.');
            }
        }
    }
}

pub proof fn lemma_first_dot_determined(s: Seq<char>, i: int)
    requires
        0 <= i <= s.len(),
        forall|k: int| 0 <= k < i ==> s[k] != '.',
        i < s.len() ==> s[i] == '.',
    ensures
        first_dot(s) == i,
    decreases s.len(),
{
    if s.len() > 0 && s[0] != '.' {
        assert(i >= 1);
        assert(forall|k: int| 0 <= k < s.len() - 1 ==> s.drop_first()[k] == s[k + 1]);
        lemma_first_dot_determined(s.drop_first(), i - 1);
    }
}

pub proof fn lemma_digits_val_bound(s: Seq<char>)
    requires
        all_digits(s),
    ensures
        0 <= digits_val(s) < pow10(s.len()),
    decreases s.len(),
{
    if s.len() > 0 {
        assert(forall|k: int| 0 <= k < s.len() - 1 ==> s.drop_last()[k] == s[k]);
        lemma_digits_val_bound(s.drop_last());
        assert(is_digit(s.last()));
    }
}

pub proof fn lemma_pow10_pos(n: nat)
    ensures
        pow10(n) >= 1,
    decreases n,
{
    if n > 0 {
        lemma_pow10_pos((n - 1) as nat);
    }
}

/// Digit runs concatenate the way place value says they do.
pub proof fn lemma_digits_val_append(a: Seq<char>, b: Seq<char>)
    ensures
        digits_val(a + b) == digits_val(a) * pow10(b.len()) + digits_val(b),
    decreases b.len(),
{
    if b.len() == 0 {
        assert(a + b =~= a);
    } else {
        assert((a + b).drop_last() =~= a + b.drop_last());
        assert((a + b).last() == b.last());
        lemma_digits_val_append(a, b.drop_last());
        let p = pow10((b.len() - 1) as nat);
        assert(digits_val(a) * p * 10 == digits_val(a) * (10 * p)) by (nonlinear_arith);
    }
}

/// Reads a monetary value out of `s`, returning exactly what
/// `spec_parse_money` says the text denotes.
pub fn parse_money(s: &str) -> (r: Option<Money>)
    ensures
        (spec_parse_money(s@) matches Some(v) ==> r matches Some(m) && m@ == v),
        (spec_parse_money(s@) is None ==> r is None),
{
    let n = s.unicode_len();
    let mut off: usize = 0;
    let mut negative = false;
    if n > 0 {
        let c0 = s.get_char(0);
        if c0 == '-' {
            negative = true;
            off = 1;
        } else if c0 == '+' {
            off = 1;
        }
    }
    let ghost t: Seq<char> = s@.subrange(off as int, n as int);
    proof {
        if s@.len() > 0 && (s@[0] == '-' || s@[0] == '+') {
            assert(t =~= s@.drop_first());
        } else {
            assert(t =~= s@);
        }
        assert(negative == (s@.len() > 0 && s@[0] == '-'));
    }
    if off == n {
        proof {
            assert(t.subrange(0, 0) =~= Seq::<char>::empty());
            assert(spec_parse_money(s@) is None);
        }
        return None;
    }
    let mut i: usize = off;
    let mut acc: i128 = 0;
    let mut seen_dot = false;
    let mut dj: usize = 0;
    let mut facc: i64 = 0;
    while i < n
        invariant
            n == s@.len(),
            off <= i <= n,
            off < n,
            t == s@.subrange(off as int, n as int),
            negative == (s@.len() > 0 && s@[0] == '-'),
            t == (if s@.len() > 0 && (s@[0] == '-' || s@[0] == '+') {
                s@.drop_first()
            } else {
                s@
            }),
            !seen_dot ==> forall|k: int| 0 <= k < i - off ==> is_digit(t[k]) && t[k] != '.',
            !seen_dot ==> acc == digits_val(t.subrange(0, i - off)),
            !seen_dot ==> facc == 0,
            seen_dot ==> 0 <= dj <= i - off - 1,
            seen_dot ==> t[dj as int] == '.',
            seen_dot ==> forall|k: int| 0 <= k < dj ==> is_digit(t[k]) && t[k] != '.',
            seen_dot ==> forall|k: int| dj < k < i - off ==> is_digit(t[k]),
            seen_dot ==> acc == digits_val(t.subrange(0, dj as int)),
            seen_dot ==> facc == digits_val(t.subrange(dj + 1, i - off)),
            seen_dot ==> i - off - dj - 1 <= 3,
            seen_dot ==> 0 <= facc < pow10((i - off - dj - 1) as nat),
            0 <= acc <= i64::MAX as i128,
        decreases n - i,
    {
        let c = s.get_char(i);
        let d32 = c as u32;
        let ghost j = i - off;
        proof {
            assert(t[j as int] == c);
            reveal_with_fuel(pow10, 5);
        }
        if 48 <= d32 && d32 <= 57 {
            proof {
                assert(is_digit(t[j as int]));
                assert(t[j as int] != '.');
            }
            if !seen_dot {
                let new_acc = acc * 10 + (d32 - 48) as i128;
                proof {
                    assert(t.subrange(0, j + 1).drop_last() =~= t.subrange(0, j as int));
                    assert(t.subrange(0, j + 1).last() == t[j as int]);
                    assert(digits_val(t.subrange(0, j + 1)) == new_acc as int);
                }
                if new_acc > i64::MAX as i128 {
                    proof {
                        lemma_first_dot_bounds(t);
                        let fd = first_dot(t);
                        if fd <= j {
                            assert(t[fd] == '.');
                            assert(false);
                        }
                        let prefix = t.subrange(0, j + 1);
                        let ipart = t.subrange(0, fd);
                        let rest = t.subrange(j + 1, fd);
                        assert(ipart =~= prefix + rest);
                        if all_digits(ipart) {
                            assert forall|k: int| 0 <= k < rest.len() implies is_digit(
                                rest[k],
                            ) by {
                                assert(rest[k] == ipart[j + 1 + k]);
                            }
                            lemma_digits_val_append(prefix, rest);
                            lemma_digits_val_bound(rest);
                            lemma_pow10_pos(rest.len() as nat);
                            assert(digits_val(ipart) >= digits_val(prefix)) by (nonlinear_arith)
                                requires
                                    digits_val(ipart) == digits_val(prefix) * pow10(rest.len())
                                        + digits_val(rest),
                                    digits_val(rest) >= 0,
                                    pow10(rest.len()) >= 1,
                                    digits_val(prefix) >= 0,
                            ;
                            if fd < t.len() {
                                let fpart = t.subrange(fd + 1, t.len() as int);
                                if all_digits(fpart) && fpart.len() <= 3 {
                                    lemma_digits_val_bound(fpart);
                                    assert(digits_val(fpart) * frac_scale(fpart.len() as int)
                                        >= 0) by (nonlinear_arith)
                                        requires
                                            digits_val(fpart) >= 0,
                                            frac_scale(fpart.len() as int) >= 1,
                                    ;
                                }
                            }
                        }
                        assert(spec_parse_money(s@) is None);
                    }
                    return None;
                }
                acc = new_acc;
            } else {
                if i - off - dj == 4 {
                    proof {
                        lemma_first_dot_determined(t, dj as int);
                        let fpart = t.subrange(dj + 1, t.len() as int);
                        assert(fpart.len() > 3);
                        assert(spec_parse_money(s@) is None);
                    }
                    return None;
                }
                proof {
                    assert(t.subrange(dj + 1, j + 1).drop_last() =~= t.subrange(dj + 1, j as int));
                    assert(t.subrange(dj + 1, j + 1).last() == t[j as int]);
                }
                facc = facc * 10 + (d32 - 48) as i64;
            }
        } else if c == '.' {
            if seen_dot {
                proof {
                    lemma_first_dot_determined(t, dj as int);
                    let fpart = t.subrange(dj + 1, t.len() as int);
                    assert(fpart[j - dj - 1] == t[j as int]);
                    assert(!is_digit(t[j as int]));
                    assert(spec_parse_money(s@) is None);
                }
                return None;
            }
            seen_dot = true;
            dj = i - off;
            proof {
                assert(t.subrange(dj + 1, i + 1 - off) =~= Seq::<char>::empty());
            }
        } else {
            proof {
                assert(!is_digit(t[j as int]));
                if seen_dot {
                    lemma_first_dot_determined(t, dj as int);
                    let fpart = t.subrange(dj + 1, t.len() as int);
                    assert(fpart[j - dj - 1] == t[j as int]);
                } else {
                    lemma_first_dot_bounds(t);
                    let fd = first_dot(t);
                    if fd <= j {
                        assert(t[fd] == '.');
                        assert(false);
                    }
                    assert(t.subrange(0, fd)[j as int] == t[j as int]);
                    assert(!all_digits(t.subrange(0, fd)));
                }
                assert(spec_parse_money(s@) is None);
            }
            return None;
        }
        i = i + 1;
    }
    if !seen_dot {
        proof {
            lemma_first_dot_determined(t, t.len() as int);
            assert(t.subrange(0, t.len() as int) =~= t);
        }
        let v128 = acc * 1000;
        if v128 > i64::MAX as i128 {
            return None;
        }
        let mils = if negative {
            -(v128 as i64)
        } else {
            v128 as i64
        };
        Some(Money::from_mils(mils))
    } else {
        let fcount = n - off - dj - 1;
        if dj == 0 && fcount == 0 {
            proof {
                lemma_first_dot_determined(t, 0);
                assert(t.subrange(0, 0).len() == 0);
                assert(t.subrange(1, t.len() as int).len() == 0);
                assert(spec_parse_money(s@) is None);
            }
            return None;
        }
        proof {
            lemma_first_dot_determined(t, dj as int);
            reveal_with_fuel(pow10, 5);
        }
        let scale: i64 = if fcount == 0 {
            1000
        } else if fcount == 1 {
            100
        } else if fcount == 2 {
            10
        } else {
            1
        };
        proof {
            assert(scale as int == frac_scale(fcount as int));
            assert(facc * scale >= 0) by (nonlinear_arith)
                requires
                    facc >= 0,
                    scale >= 1,
            ;
            assert(facc * scale <= 999 * 1000) by (nonlinear_arith)
                requires
                    0 <= facc <= 999,
                    1 <= scale <= 1000,
            ;
        }
        let v128 = acc * 1000 + (facc as i128) * (scale as i128);
        if v128 > i64::MAX as i128 {
            return None;
        }
        let mils = if negative {
            -(v128 as i64)
        } else {
            v128 as i64
        };
        Some(Money::from_mils(mils))
    }
}

} // verus!
