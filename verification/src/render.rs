//! Rendering the report's numbers: decimal strings for signed seconds and
//! the `h m s` duration breakdown, all derived from one total by truncating
//! integer division.

use vstd::prelude::*;

verus! {

/// The character for one decimal digit.
pub open spec fn digit_char(d: int) -> char {
    if d == 0 {
        '0'
    } else if d == 1 {
        '1'
    } else if d == 2 {
        '2'
    } else if d == 3 {
        '3'
    } else if d == 4 {
        '4'
    } else if d == 5 {
        '5'
    } else if d == 6 {
        '6'
    } else if d == 7 {
        '7'
    } else if d == 8 {
        '8'
    } else {
        '9'
    }
}

/// The decimal digits of a non-negative number, most significant first,
/// without leading zeros (a lone zero for 0).
pub open spec fn dec_digits(n: int) -> Seq<char>
    decreases n,
{
    if n < 10 {
        seq![digit_char(n)]
    } else {
        dec_digits(n / 10) + seq![digit_char(n % 10)]
    }
}

/// The decimal rendering of a signed number: a minus sign before the digits
/// of its magnitude when it is negative.
pub open spec fn int_str(n: int) -> Seq<char> {
    if n < 0 {
        seq!['-'] + dec_digits(-n)
    } else {
        dec_digits(n)
    }
}

/// Whole hours of a signed duration, truncating toward zero.
pub open spec fn hours_part(secs: int) -> int {
    if secs < 0 {
        -((-secs) / 3600)
    } else {
        secs / 3600
    }
}

/// Whole minutes of a signed duration past the hour, truncating toward zero.
pub open spec fn minutes_part(secs: int) -> int {
    if secs < 0 {
        -(((-secs) / 60) % 60)
    } else {
        (secs / 60) % 60
    }
}

/// Whole seconds of a signed duration past the minute, truncating toward
/// zero.
pub open spec fn seconds_part(secs: int) -> int {
    if secs < 0 {
        -((-secs) % 60)
    } else {
        secs % 60
    }
}

/// The printed duration line: hours, minutes and seconds, each rendered in
/// decimal and suffixed with its unit.
pub open spec fn duration_line(secs: int) -> Seq<char> {
    int_str(hours_part(secs)) + "h "@ + int_str(minutes_part(secs)) + "m "@ + int_str(
        seconds_part(secs),
    ) + "s"@
}

/// For a non-negative total, the whole hours, minutes past the hour and
/// seconds past the minute recompose exactly to the total.
proof fn lemma_nonneg_components(x: int)
    requires
        x >= 0,
    ensures
        (x / 3600) * 3600 + ((x / 60) % 60) * 60 + (x % 60) == x,
        0 <= (x / 60) % 60 < 60,
        0 <= x % 60 < 60,
{
    vstd::arithmetic::div_mod::lemma_fundamental_div_mod(x, 60);
    vstd::arithmetic::div_mod::lemma_fundamental_div_mod(x / 60, 60);
    vstd::arithmetic::div_mod::lemma_div_denominator(x, 60, 60);
}

/// Law: the three printed components are consistent parts of one total,
/// derived from the same whole-second count: they recompose exactly to the
/// duration, the minute and second parts stay below their units, and all
/// three carry the sign of the total.
pub proof fn lemma_duration_components(secs: int)
    ensures
        hours_part(secs) * 3600 + minutes_part(secs) * 60 + seconds_part(secs) == secs,
        -60 < minutes_part(secs) < 60,
        -60 < seconds_part(secs) < 60,
        secs >= 0 ==> hours_part(secs) >= 0 && minutes_part(secs) >= 0 && seconds_part(secs) >= 0,
        secs <= 0 ==> hours_part(secs) <= 0 && minutes_part(secs) <= 0 && seconds_part(secs) <= 0,
{
    if secs < 0 {
        lemma_nonneg_components(-secs);
    } else {
        lemma_nonneg_components(secs);
    }
}

/// The characters of a list of decimal digits given least significant
/// first, read back most significant first.
spec fn chars_of_rev(ds: Seq<u64>) -> Seq<char>
    decreases ds.len(),
{
    if ds.len() == 0 {
        Seq::empty()
    } else {
        seq![digit_char(ds.last() as int)] + chars_of_rev(ds.drop_last())
    }
}

/// The single-character string for one decimal digit.
fn digit_str(d: u64) -> (r: &'static str)
    requires
        d < 10,
    ensures
        r@ == seq![digit_char(d as int)],
{
    proof {
        reveal_strlit("0");
        reveal_strlit("1");
        reveal_strlit("2");
        reveal_strlit("3");
        reveal_strlit("4");
        reveal_strlit("5");
        reveal_strlit("6");
        reveal_strlit("7");
        reveal_strlit("8");
        reveal_strlit("9");
    }
    let r = if d == 0 {
        "0"
    } else if d == 1 {
        "1"
    } else if d == 2 {
        "2"
    } else if d == 3 {
        "3"
    } else if d == 4 {
        "4"
    } else if d == 5 {
        "5"
    } else if d == 6 {
        "6"
    } else if d == 7 {
        "7"
    } else if d == 8 {
        "8"
    } else {
        "9"
    };
    proof {
        assert(r@ =~= seq![digit_char(d as int)]);
    }
    r
}

/// Renders a non-negative number in decimal.
fn u64_to_string(n: u64) -> (r: String)
    ensures
        r@ == dec_digits(n as int),
{
    let mut ds: Vec<u64> = Vec::new();
    let mut m: u64 = n;
    while m >= 10
        invariant
            dec_digits(n as int) == dec_digits(m as int) + chars_of_rev(ds@),
            forall|k: int| 0 <= k < ds@.len() ==> #[trigger] ds@[k] < 10,
        decreases m,
    {
        let d = m % 10;
        proof {
            assert(ds@.push(d).drop_last() =~= ds@);
            assert(dec_digits(m as int) == dec_digits(m as int / 10) + seq![
                digit_char(m as int % 10),
            ]);
            assert(dec_digits(m as int / 10) + seq![digit_char(m as int % 10)] + chars_of_rev(ds@)
                =~= dec_digits(m as int / 10) + (seq![digit_char(m as int % 10)] + chars_of_rev(
                ds@,
            )));
        }
        ds.push(d);
        m = m / 10;
    }
    proof {
        assert(ds@.push(m).drop_last() =~= ds@);
    }
    ds.push(m);
    let mut r = String::new();
    let mut k: usize = 0;
    let len = ds.len();
    while k < len
        invariant
            len == ds@.len(),
            k <= len,
            forall|j: int| 0 <= j < ds@.len() ==> #[trigger] ds@[j] < 10,
            r@ == chars_of_rev(ds@.take(k as int)),
        decreases len - k,
    {
        proof {
            assert(ds@.take(k + 1).drop_last() =~= ds@.take(k as int));
            assert(ds@.take(k + 1).last() == ds@[k as int]);
        }
        let piece = String::from_str(digit_str(ds[k]));
        let joined = piece.concat(r.as_str());
        r = joined;
        k += 1;
    }
    proof {
        assert(ds@.take(len as int) =~= ds@);
    }
    r
}

/// Renders a signed number in decimal, with a leading minus sign when it is
/// negative.
pub fn int_to_string(n: i64) -> (r: String)
    ensures
        r@ == int_str(n as int),
{
    if n >= 0 {
        u64_to_string(n as u64)
    } else {
        let mag: u64 = (-(n as i128)) as u64;
        let digits = u64_to_string(mag);
        let r = String::from_str("-").concat(digits.as_str());
        proof {
            reveal_strlit("-");
            assert(r@ =~= int_str(n as int));
        }
        r
    }
}

/// Renders a signed duration as its printed breakdown into hours, minutes
/// and seconds, all three derived from the same total by truncating
/// division, so that they are consistent components of it.
pub fn format_duration(secs: i64) -> (r: String)
    ensures
        r@ == duration_line(secs as int),
{
    let neg = secs < 0;
    let mag: u64 = if neg {
        (-(secs as i128)) as u64
    } else {
        secs as u64
    };
    let h_mag: u64 = mag / 3600;
    let m_mag: u64 = (mag / 60) % 60;
    let s_mag: u64 = mag % 60;
    let h: i64 = if neg {
        -(h_mag as i64)
    } else {
        h_mag as i64
    };
    let m: i64 = if neg {
        -(m_mag as i64)
    } else {
        m_mag as i64
    };
    let s: i64 = if neg {
        -(s_mag as i64)
    } else {
        s_mag as i64
    };
    proof {
        assert(h as int == hours_part(secs as int));
        assert(m as int == minutes_part(secs as int));
        assert(s as int == seconds_part(secs as int));
    }
    let mut out = int_to_string(h);
    out.append("h ");
    let m_str = int_to_string(m);
    out.append(m_str.as_str());
    out.append("m ");
    let s_str = int_to_string(s);
    out.append(s_str.as_str());
    out.append("s");
    proof {
        assert(out@ =~= duration_line(secs as int));
    }
    out
}

} // verus!
