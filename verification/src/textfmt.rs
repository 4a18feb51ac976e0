//! Decimal rendering of durations for status display.

use vstd::prelude::*;

verus! {

/// The decimal digit character for a value between 0 and 9.
pub open spec fn spec_digit(d: int) -> char {
    if d == 0 {
        '0'
    } else if d == 1 {
        '1'
    } else if d == 2 {
        '2'
    } else if d == 3 {
        '3'
    } else if d == 4 {
        '4'
    } else if d == 5 {
        '5'
    } else if d == 6 {
        '6'
    } else if d == 7 {
        '7'
    } else if d == 8 {
        '8'
    } else {
        '9'
    }
}

/// The usual decimal rendering of a non-negative integer, most significant
/// digit first, with no leading zeros.
pub open spec fn spec_dec(n: nat) -> Seq<char>
    decreases n,
{
    if n <= 9 {
        seq![spec_digit(n as int)]
    } else {
        spec_dec(n / 10) + seq![spec_digit((n % 10) as int)]
    }
}

/// Two-digit rendering with a leading zero for values below ten.
pub open spec fn spec_pad2(n: nat) -> Seq<char> {
    if n < 10 {
        seq!['0'] + spec_dec(n)
    } else {
        spec_dec(n)
    }
}

/// How a duration of `ms` milliseconds reads: minutes and zero-padded
/// seconds above a minute, whole seconds below that, else milliseconds.
pub open spec fn spec_format_duration(ms: nat) -> Seq<char> {
    let secs = ms / 1000;
    if secs > 60 {
        spec_dec(secs / 60) + seq!['m', ' '] + spec_pad2(secs % 60) + seq!['s']
    } else if secs > 0 {
        spec_dec(secs) + seq!['s']
    } else {
        spec_dec(ms) + seq!['m', 's']
    }
}

/// Append one decimal digit.
fn push_digit(out: &mut String, d: u64)
    requires
        d < 10,
    ensures
        final(out)@ == old(out)@ + seq![spec_digit(d as int)],
{
    let s: &str = if d == 0 {
        "0"
    } else if d == 1 {
        "1"
    } else if d == 2 {
        "2"
    } else if d == 3 {
        "3"
    } else if d == 4 {
        "4"
    } else if d == 5 {
        "5"
    } else if d == 6 {
        "6"
    } else if d == 7 {
        "7"
    } else if d == 8 {
        "8"
    } else {
        "9"
    };
    proof {
        reveal_strlit("0");
        reveal_strlit("1");
        reveal_strlit("2");
        reveal_strlit("3");
        reveal_strlit("4");
        reveal_strlit("5");
        reveal_strlit("6");
        reveal_strlit("7");
        reveal_strlit("8");
        reveal_strlit("9");
        assert(s@ =~= seq![spec_digit(d as int)]);
    }
    out.append(s);
}

/// Append the decimal rendering of `n`.
fn push_decimal(out: &mut String, n: u64)
    ensures
        final(out)@ == old(out)@ + spec_dec(n as nat),
    decreases n,
{
    if n <= 9 {
        push_digit(out, n);
    } else {
        push_decimal(out, n / 10);
        push_digit(out, n % 10);
        proof {
            assert(old(out)@ + spec_dec((n / 10) as nat) + seq![spec_digit((n % 10) as int)]
                =~= old(out)@ + spec_dec(n as nat));
        }
    }
}

/// Render a duration of `ms` milliseconds for display: "XmYYs" above a
/// minute, "Xs" above a second, else "Xms".
pub fn format_duration(ms: u64) -> (r: String)
    ensures
        r@ == spec_format_duration(ms as nat),
{
    let secs: u64 = ms / 1000;
    let mut out = String::new();
    if secs > 60 {
        push_decimal(&mut out, secs / 60);
        out.append("m ");
        if secs % 60 < 10 {
            out.append("0");
        }
        push_decimal(&mut out, secs % 60);
        out.append("s");
        proof {
            reveal_strlit("m ");
            reveal_strlit("0");
            reveal_strlit("s");
            assert(out@ =~= spec_format_duration(ms as nat));
        }
    } else if secs > 0 {
        push_decimal(&mut out, secs);
        out.append("s");
        proof {
            reveal_strlit("s");
            assert(out@ =~= spec_format_duration(ms as nat));
        }
    } else {
        push_decimal(&mut out, ms);
        out.append("ms");
        proof {
            reveal_strlit("ms");
            assert(out@ =~= spec_format_duration(ms as nat));
        }
    }
    out
}

} // verus!
