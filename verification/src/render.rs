//! Verified construction of decimal text: plain and zero-padded digit runs,
//! signed years, and trimmed sub-second fractions.

use vstd::prelude::*;
use vstd::string::*;

verus! {

/// The decimal digit character for `d` (0 to 9).
pub open spec fn digit_char(d: int) -> char {
    if d == 0 {
        '0'
    } else if d == 1 {
        '1'
    } else if d == 2 {
        '2'
    } else if d == 3 {
        '3'
    } else if d == 4 {
        '4'
    } else if d == 5 {
        '5'
    } else if d == 6 {
        '6'
    } else if d == 7 {
        '7'
    } else if d == 8 {
        '8'
    } else {
        '9'
    }
}

/// The decimal rendering of `n` without padding.
pub open spec fn dec_digits(n: nat) -> Seq<char>
    decreases n,
{
    if n < 10 {
        seq![digit_char(n as int)]
    } else {
        dec_digits(n / 10) + seq![digit_char((n % 10) as int)]
    }
}

/// The lowest `k` decimal digits of `n`, zero padded to width `k`.
pub open spec fn padded_digits(n: nat, k: nat) -> Seq<char>
    decreases k,
{
    if k == 0 {
        Seq::<char>::empty()
    } else {
        padded_digits(n / 10, (k - 1) as nat) + seq![digit_char((n % 10) as int)]
    }
}

/// A year, zero padded to four digits, with a leading minus sign for years
/// before year zero.
pub open spec fn year_digits(y: int) -> Seq<char> {
    let a: nat = (if y < 0 { -y } else { y }) as nat;
    let digits: Seq<char> = if a < 10000 { padded_digits(a, 4) } else { dec_digits(a) };
    if y < 0 {
        seq!['-'] + digits
    } else {
        digits
    }
}

/// A nanosecond count below one second, rendered as nine zero-padded digits
/// with trailing zeros removed; `k` is the width still under consideration.
pub open spec fn trimmed_fraction(ns: nat, k: nat) -> Seq<char>
    decreases k,
{
    if k > 1 && ns % 10 == 0 {
        trimmed_fraction(ns / 10, (k - 1) as nat)
    } else {
        padded_digits(ns, k)
    }
}

/// Appends the digit character for `d` to `s`.
pub fn push_digit(s: &mut String, d: u64)
    requires
        d < 10,
    ensures
        final(s)@ == old(s)@ + seq![digit_char(d as int)],
{
    if d == 0 {
        s.append("0");
        proof {
            reveal_strlit("0");
        }
    } else if d == 1 {
        s.append("1");
        proof {
            reveal_strlit("1");
        }
    } else if d == 2 {
        s.append("2");
        proof {
            reveal_strlit("2");
        }
    } else if d == 3 {
        s.append("3");
        proof {
            reveal_strlit("3");
        }
    } else if d == 4 {
        s.append("4");
        proof {
            reveal_strlit("4");
        }
    } else if d == 5 {
        s.append("5");
        proof {
            reveal_strlit("5");
        }
    } else if d == 6 {
        s.append("6");
        proof {
            reveal_strlit("6");
        }
    } else if d == 7 {
        s.append("7");
        proof {
            reveal_strlit("7");
        }
    } else if d == 8 {
        s.append("8");
        proof {
            reveal_strlit("8");
        }
    } else {
        s.append("9");
        proof {
            reveal_strlit("9");
        }
    }
    proof {
        assert(final(s)@ =~= old(s)@ + seq![digit_char(d as int)]);
    }
}

/// Appends the lowest `k` digits of `n`, zero padded, to `s`.
pub fn push_padded(s: &mut String, n: u64, k: u64)
    requires
        k <= 32,
    ensures
        final(s)@ == old(s)@ + padded_digits(n as nat, k as nat),
    decreases k,
{
    if k == 0 {
        proof {
            assert(final(s)@ =~= old(s)@ + padded_digits(n as nat, 0));
        }
    } else {
        push_padded(s, n / 10, k - 1);
        push_digit(s, n % 10);
        proof {
            assert(final(s)@ =~= old(s)@ + padded_digits(n as nat, k as nat));
        }
    }
}

/// Appends the decimal rendering of `n` to `s`.
pub fn push_dec(s: &mut String, n: u64)
    ensures
        final(s)@ == old(s)@ + dec_digits(n as nat),
    decreases n,
{
    if n < 10 {
        push_digit(s, n);
    } else {
        push_dec(s, n / 10);
        push_digit(s, n % 10);
        proof {
            assert(final(s)@ =~= old(s)@ + dec_digits(n as nat));
        }
    }
}

/// Appends the year rendering of `y` to `s`.
pub fn push_year(s: &mut String, y: i64)
    requires
        -20_000_000 <= y <= 20_000_000,
    ensures
        final(s)@ == old(s)@ + year_digits(y as int),
{
    let a: u64 = if y < 0 {
        s.append("-");
        proof {
            reveal_strlit("-");
        }
        (-y) as u64
    } else {
        y as u64
    };
    if a < 10000 {
        push_padded(s, a, 4);
    } else {
        push_dec(s, a);
    }
    proof {
        assert(final(s)@ =~= old(s)@ + year_digits(y as int));
    }
}

/// Appends the trimmed fraction rendering of `ns` at width `k` to `s`.
pub fn push_fraction(s: &mut String, ns: u64, k: u64)
    requires
        1 <= k <= 32,
    ensures
        final(s)@ == old(s)@ + trimmed_fraction(ns as nat, k as nat),
    decreases k,
{
    if k > 1 && ns % 10 == 0 {
        push_fraction(s, ns / 10, k - 1);
    } else {
        push_padded(s, ns, k);
    }
}

} // verus!
