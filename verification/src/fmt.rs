//! Human-readable size labels: a byte count under a kibibyte is printed as
//! is; larger counts are scaled to KB, MB or GB with two decimals, rounding
//! half up.

use vstd::prelude::*;
use vstd::string::StringExecFns;

verus! {

/// One kibibyte.
pub const KB: u64 = 1024;

/// One mebibyte.
pub const MB: u64 = 1048576;

/// One gibibyte.
pub const GB: u64 = 1073741824;

/// The character of one decimal digit.
pub open spec fn spec_digit(d: int) -> char {
    if d == 0 {
        '0'
    } else if d == 1 {
        '1'
    } else if d == 2 {
        '2'
    } else if d == 3 {
        '3'
    } else if d == 4 {
        '4'
    } else if d == 5 {
        '5'
    } else if d == 6 {
        '6'
    } else if d == 7 {
        '7'
    } else if d == 8 {
        '8'
    } else {
        '9'
    }
}

/// The decimal digits of a non-negative integer, most significant first.
pub open spec fn dec_str(n: int) -> Seq<char>
    recommends
        n >= 0,
    decreases n,
{
    if n < 10 {
        seq![spec_digit(n)]
    } else {
        dec_str(n / 10).push(spec_digit(n % 10))
    }
}

/// `size / unit` in hundredths, rounded half up.
pub open spec fn centi_of(size: u64, unit: u64) -> int
    recommends
        unit >= 2,
{
    (100 * size + unit / 2) / (unit as int)
}

/// The label "W.FF" for `size` scaled by `unit`.
pub open spec fn centi_label(size: u64, unit: u64) -> Seq<char> {
    let c = centi_of(size, unit);
    dec_str(c / 100) + seq!['.', spec_digit(c % 100 / 10), spec_digit(c % 10)]
}

/// The full label of a size: scaled to the largest unit it reaches.
pub open spec fn format_size_spec(size: u64) -> Seq<char> {
    if size >= GB {
        centi_label(size, GB) + seq![' ', 'G', 'B']
    } else if size >= MB {
        centi_label(size, MB) + seq![' ', 'M', 'B']
    } else if size >= KB {
        centi_label(size, KB) + seq![' ', 'K', 'B']
    } else {
        dec_str(size as int) + seq![' ', 'B']
    }
}

fn digit_str(d: u128) -> (r: &'static str)
    requires
        d < 10,
    ensures
        r@ == seq![spec_digit(d as int)],
{
    proof {
        reveal_strlit("0");
        reveal_strlit("1");
        reveal_strlit("2");
        reveal_strlit("3");
        reveal_strlit("4");
        reveal_strlit("5");
        reveal_strlit("6");
        reveal_strlit("7");
        reveal_strlit("8");
        reveal_strlit("9");
    }
    let r = if d == 0 {
        "0"
    } else if d == 1 {
        "1"
    } else if d == 2 {
        "2"
    } else if d == 3 {
        "3"
    } else if d == 4 {
        "4"
    } else if d == 5 {
        "5"
    } else if d == 6 {
        "6"
    } else if d == 7 {
        "7"
    } else if d == 8 {
        "8"
    } else {
        "9"
    };
    assert(r@ =~= seq![spec_digit(d as int)]);
    r
}

fn push_digits(s: &mut String, n: u128)
    ensures
        final(s)@ == old(s)@ + dec_str(n as int),
    decreases n,
{
    if n >= 10 {
        push_digits(s, n / 10);
        s.append(digit_str(n % 10));
        assert(final(s)@ =~= old(s)@ + dec_str(n as int));
    } else {
        s.append(digit_str(n));
        assert(final(s)@ =~= old(s)@ + dec_str(n as int));
    }
}

fn push_centi_label(s: &mut String, size: u64, unit: u64)
    requires
        unit >= 2,
    ensures
        final(s)@ == old(s)@ + centi_label(size, unit),
{
    let c: u128 = (100u128 * (size as u128) + (unit as u128) / 2) / (unit as u128);
    assert(c == centi_of(size, unit));
    push_digits(s, c / 100);
    proof {
        reveal_strlit(".");
    }
    s.append(".");
    s.append(digit_str(c % 100 / 10));
    s.append(digit_str(c % 10));
    assert(final(s)@ =~= old(s)@ + centi_label(size, unit));
}

/// The human-readable label of a byte count, per `format_size_spec`.
pub fn format_size(size: u64) -> (r: String)
    ensures
        r@ == format_size_spec(size),
{
    let mut s = String::new();
    proof {
        reveal_strlit(" GB");
        reveal_strlit(" MB");
        reveal_strlit(" KB");
        reveal_strlit(" B");
    }
    if size >= GB {
        push_centi_label(&mut s, size, GB);
        s.append(" GB");
        assert(s@ =~= format_size_spec(size));
    } else if size >= MB {
        push_centi_label(&mut s, size, MB);
        s.append(" MB");
        assert(s@ =~= format_size_spec(size));
    } else if size >= KB {
        push_centi_label(&mut s, size, KB);
        s.append(" KB");
        assert(s@ =~= format_size_spec(size));
    } else {
        push_digits(&mut s, size as u128);
        s.append(" B");
        assert(s@ =~= format_size_spec(size));
    }
    s
}

} // verus!
