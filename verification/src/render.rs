//! Rendering a monetary value as text: the sign, the whole units, and
//! a point followed by the fraction digits with trailing zeros dropped;
//! a whole value is rendered with no point at all.

use vstd::prelude::*;
use vstd::string::StringExecFns;

use crate::money::Money;
use crate::parse::{all_digits, digit_val, digits_val, frac_scale, is_digit, spec_parse_money};
use crate::parse::lemma_first_dot_determined;

verus! {

/// The character for a single decimal digit.
pub open spec fn digit_char(d: int) -> char {
    ((48 + d) as u8) as char
}

/// The decimal digits of `n`, most significant first, with no sign and
/// no leading zeros (zero itself is the single digit `0`).
pub open spec fn spec_digits(n: nat) -> Seq<char>
    decreases n,
{
    if n < 10 {
        seq![digit_char(n as int)]
    } else {
        spec_digits(n / 10).push(digit_char((n % 10) as int))
    }
}

/// The fraction suffix for a mil remainder below one thousand: empty
/// for zero, otherwise a point and the fraction digits with trailing
/// zeros dropped.
pub open spec fn spec_frac(frac: nat) -> Seq<char> {
    if frac == 0 {
        Seq::empty()
    } else if frac % 100 == 0 {
        seq!['.', digit_char(frac as int / 100)]
    } else if frac % 10 == 0 {
        seq!['.', digit_char(frac as int / 100), digit_char((frac as int / 10) % 10)]
    } else {
        seq![
            '.',
            digit_char(frac as int / 100),
            digit_char((frac as int / 10) % 10),
            digit_char(frac as int % 10),
        ]
    }
}

/// The textual form of a mil count `v`.
pub open spec fn spec_render_money(v: int) -> Seq<char> {
    let mag = if v < 0 {
        -v
    } else {
        v
    };
    let sign: Seq<char> = if v < 0 {
        seq!['-']
    } else {
        Seq::empty()
    };
    sign + spec_digits((mag / 1000) as nat) + spec_frac((mag % 1000) as nat)
}

/// The digit sequence for `n` really is made of digits, reads back as
/// `n`, and is never empty.
pub proof fn lemma_spec_digits_read_back(n: nat)
    ensures
        all_digits(spec_digits(n)),
        digits_val(spec_digits(n)) == n,
        spec_digits(n).len() >= 1,
    decreases n,
{
    if n < 10 {
        let s = spec_digits(n);
        assert(digit_char(n as int) as u32 == 48 + n);
        assert(s.drop_last() =~= Seq::<char>::empty());
        assert(digits_val(Seq::<char>::empty()) == 0);
        assert(s.last() == digit_char(n as int));
        assert(digit_val(s.last()) == n);
        assert(is_digit(s.last()));
    } else {
        lemma_spec_digits_read_back(n / 10);
        let s = spec_digits(n / 10);
        let c = digit_char((n % 10) as int);
        assert(c as u32 == 48 + (n % 10));
        assert(is_digit(c));
        assert(s.push(c).drop_last() =~= s);
        assert(s.push(c).last() == c);
        vstd::arithmetic::div_mod::lemma_fundamental_div_mod(n as int, 10);
        assert forall|i: int| 0 <= i < s.push(c).len() implies is_digit(s.push(c)[i]) by {
            if i < s.len() {
                assert(s.push(c)[i] == s[i]);
            } else {
                assert(s.push(c)[i] == c);
            }
        }
    }
}

proof fn lemma_digit_char_val(d: int)
    requires
        0 <= d <= 9,
    ensures
        digit_val(digit_char(d)) == d,
        is_digit(digit_char(d)),
{
    assert(digit_char(d) as u32 == 48 + d);
}

/// Rendering a value and reading the text back yields the value again.
/// The very bottom of the `i64` range is left out: its magnitude lies
/// one past the top, so its textual form denotes no representable value.
pub proof fn lemma_render_parse_round_trip(v: int)
    requires
        i64::MIN < v <= i64::MAX,
    ensures
        spec_parse_money(spec_render_money(v)) == Some(v),
{
    let mag = if v < 0 {
        -v
    } else {
        v
    };
    vstd::arithmetic::div_mod::lemma_fundamental_div_mod(mag, 1000);
    let units = (mag / 1000) as nat;
    let frac = (mag % 1000) as nat;
    assert(mag == units * 1000 + frac);
    lemma_spec_digits_read_back(units);
    let ds = spec_digits(units);
    let fs = spec_frac(frac);
    let body = ds + fs;
    let full = spec_render_money(v);
    if v < 0 {
        assert(full =~= Seq::<char>::empty().push('-') + ds + fs);
        assert(full[0] == '-');
        assert(full.drop_first() =~= body);
    } else {
        assert(full =~= ds + fs);
        assert(full[0] == ds[0]);
        assert(is_digit(full[0]));
        assert(full[0] != '-' && full[0] != '+');
    }
    assert forall|k: int| 0 <= k < ds.len() implies body[k] != '.' by {
        assert(body[k] == ds[k]);
        assert(is_digit(ds[k]));
    }
    assert(digits_val(Seq::<char>::empty()) == 0);
    if frac == 0 {
        assert(fs =~= Seq::<char>::empty());
        assert(body =~= ds);
        lemma_first_dot_determined(body, body.len() as int);
        assert(body.subrange(0, body.len() as int) =~= ds);
    } else {
        let fd = fs.drop_first();
        assert(fs[0] == '.');
        assert(body[ds.len() as int] == '.');
        lemma_first_dot_determined(body, ds.len() as int);
        assert(body.subrange(0, ds.len() as int) =~= ds);
        assert(body.subrange(ds.len() as int + 1, body.len() as int) =~= fd);
        let fi = frac as int;
        vstd::arithmetic::div_mod::lemma_fundamental_div_mod(fi, 100);
        vstd::arithmetic::div_mod::lemma_fundamental_div_mod(fi, 10);
        vstd::arithmetic::div_mod::lemma_fundamental_div_mod(fi / 10, 10);
        vstd::arithmetic::div_mod::lemma_div_denominator(fi, 10, 10);
        lemma_digit_char_val(fi / 100);
        lemma_digit_char_val((fi / 10) % 10);
        lemma_digit_char_val(fi % 10);
        let d1 = digit_char(fi / 100);
        let d2 = digit_char((fi / 10) % 10);
        let d3 = digit_char(fi % 10);
        if fi % 100 == 0 {
            assert(fd =~= Seq::<char>::empty().push(d1));
            assert(fd.drop_last() =~= Seq::<char>::empty());
            assert(digits_val(fd) == fi / 100);
            assert(all_digits(fd));
            assert(digits_val(fd) * frac_scale(fd.len() as int) == fi);
        } else if fi % 10 == 0 {
            assert(fd =~= Seq::<char>::empty().push(d1).push(d2));
            assert(fd.drop_last() =~= Seq::<char>::empty().push(d1));
            assert(fd.drop_last().drop_last() =~= Seq::<char>::empty());
            assert(digits_val(fd.drop_last()) == fi / 100);
            assert(digits_val(fd) == (fi / 100) * 10 + (fi / 10) % 10);
            assert((fi / 10) / 10 == fi / 100);
            assert(digits_val(fd) == fi / 10);
            assert(all_digits(fd));
            assert(digits_val(fd) * frac_scale(fd.len() as int) == fi);
        } else {
            assert(fd =~= Seq::<char>::empty().push(d1).push(d2).push(d3));
            assert(fd.drop_last() =~= Seq::<char>::empty().push(d1).push(d2));
            assert(fd.drop_last().drop_last() =~= Seq::<char>::empty().push(d1));
            assert(fd.drop_last().drop_last().drop_last() =~= Seq::<char>::empty());
            assert(digits_val(fd.drop_last().drop_last()) == fi / 100);
            assert((fi / 10) / 10 == fi / 100);
            assert(digits_val(fd.drop_last()) == fi / 10);
            assert(digits_val(fd) == (fi / 10) * 10 + fi % 10);
            assert(digits_val(fd) == fi);
            assert(all_digits(fd));
            assert(digits_val(fd) * frac_scale(fd.len() as int) == fi);
        }
    }
    assert(spec_parse_money(full) == Some(v));
}

/// The one-character string for a decimal digit.
fn digit_str(d: u64) -> (r: &'static str)
    requires
        d < 10,
    ensures
        r@ == seq![digit_char(d as int)],
{
    proof {
        reveal_strlit("0");
        reveal_strlit("1");
        reveal_strlit("2");
        reveal_strlit("3");
        reveal_strlit("4");
        reveal_strlit("5");
        reveal_strlit("6");
        reveal_strlit("7");
        reveal_strlit("8");
        reveal_strlit("9");
    }
    match d {
        0 => "0",
        1 => "1",
        2 => "2",
        3 => "3",
        4 => "4",
        5 => "5",
        6 => "6",
        7 => "7",
        8 => "8",
        _ => "9",
    }
}

/// Appends the decimal digits of `n` to `out`.
fn push_digits(out: &mut String, n: u64)
    ensures
        final(out)@ == old(out)@ + spec_digits(n as nat),
    decreases n,
{
    if n < 10 {
        out.append(digit_str(n));
        proof {
            assert(out@ =~= old(out)@ + spec_digits(n as nat));
        }
    } else {
        push_digits(out, n / 10);
        out.append(digit_str(n % 10));
        proof {
            assert(out@ =~= old(out)@ + spec_digits(n as nat));
        }
    }
}

/// Renders a monetary value exactly as `spec_render_money` says.
pub fn render_money(m: Money) -> (r: String)
    ensures
        r@ == spec_render_money(m@),
{
    let mils = m.as_mils();
    let mut out = String::new();
    let mag: u64;
    if mils < 0 {
        proof {
            reveal_strlit("-");
        }
        out.append("-");
        let wide: i128 = -(mils as i128);
        mag = wide as u64;
    } else {
        mag = mils as u64;
    }
    let units = mag / 1000;
    let frac = mag % 1000;
    push_digits(&mut out, units);
    if frac != 0 {
        proof {
            reveal_strlit(".");
        }
        out.append(".");
        if frac % 100 == 0 {
            out.append(digit_str(frac / 100));
        } else if frac % 10 == 0 {
            out.append(digit_str(frac / 100));
            out.append(digit_str((frac / 10) % 10));
        } else {
            out.append(digit_str(frac / 100));
            out.append(digit_str((frac / 10) % 10));
            out.append(digit_str(frac % 10));
        }
    }
    proof {
        assert(out@ =~= spec_render_money(m@));
    }
    out
}

} // verus!
