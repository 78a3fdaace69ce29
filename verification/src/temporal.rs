//! Reconstruction of the legacy combined date-time from its day count and
//! 1/300-second fragment count, and its rendering as text.
//!
//! The fixed epoch is 1900-01-01 00:00:00. The fragment count is divided by
//! 300 to obtain seconds; the fractional remainder becomes nanoseconds,
//! truncated toward zero. Whole days carried by the seconds spill into the
//! day count. The reconstructed instant is rendered as
//! `YYYY-MM-DDTHH:MM:SS` with a trailing `.fraction` only when the
//! nanoseconds are not zero.

use vstd::prelude::*;
use vstd::string::*;

use crate::calendar::{
    date_of_day_number, day_number, lemma_day_number_injective, lemma_days_before_year_bounds,
    lemma_offset_in_year, valid_date,
};
use crate::column::DateTimeValue;
use crate::render::{
    padded_digits, push_fraction, push_padded, push_year, trimmed_fraction, year_digits,
};

verus! {

/// The calendar date `n` days after 1900-01-01: the unique valid date with
/// day number `n`.
pub open spec fn date_parts(n: int) -> (int, int, int) {
    choose|t: (int, int, int)| valid_date(t.0, t.1, t.2) && day_number(t.0, t.1, t.2) == n
}

/// The nanoseconds encoded by the sub-second part of a fragment count:
/// fragments are 1/300 of a second, and the fraction is truncated toward
/// zero when it does not fall on a whole nanosecond.
pub open spec fn fragment_nanos(fragments: nat) -> nat {
    (fragments % 300) * 10_000_000 / 3
}

/// The text of the instant reconstructed from a signed day count and a
/// fragment count.
pub open spec fn datetime_text(days: int, fragments: nat) -> Seq<char> {
    let total_secs = fragments / 300;
    let frac_ns = fragment_nanos(fragments);
    let n = days + total_secs / 86400;
    let secs = total_secs % 86400;
    let ymd = date_parts(n);
    year_digits(ymd.0) + seq!['-'] + padded_digits(ymd.1 as nat, 2) + seq!['-'] + padded_digits(
        ymd.2 as nat,
        2,
    ) + seq!['T'] + padded_digits((secs / 3600) as nat, 2) + seq![':'] + padded_digits(
        ((secs % 3600) / 60) as nat,
        2,
    ) + seq![':'] + padded_digits((secs % 60) as nat, 2) + (if frac_ns == 0 {
        Seq::<char>::empty()
    } else {
        seq!['.'] + trimmed_fraction(frac_ns, 9)
    })
}

/// Renders the instant encoded by a legacy combined date-time value. The
/// reconstruction is total: every day count and fragment count names an
/// instant of the proleptic Gregorian calendar.
pub fn datetime_node_text(dt: &DateTimeValue) -> (s: String)
    ensures
        s@ == datetime_text(dt.days as int, dt.seconds_fragments as nat),
{
    let f: u64 = dt.seconds_fragments as u64;
    let total_secs: u64 = f / 300;
    let frac_ns: u64 = (f % 300) * 10_000_000 / 3;
    let n: i64 = dt.days as i64 + (total_secs / 86400) as i64;
    let secs: u64 = total_secs % 86400;
    let (y, m, d) = date_of_day_number(n);
    proof {
        let c = date_parts(n as int);
        assert(valid_date(c.0, c.1, c.2) && day_number(c.0, c.1, c.2) == n as int) by {
            assert(valid_date(y as int, m as int, d as int) && day_number(
                y as int,
                m as int,
                d as int,
            ) == n as int);
        }
        lemma_day_number_injective(c.0, c.1, c.2, y as int, m as int, d as int);
        lemma_offset_in_year(y as int, m as int, d as int);
        lemma_days_before_year_bounds(y as int);
    }
    let mut s = String::new();
    push_year(&mut s, y);
    s.append("-");
    push_padded(&mut s, m as u64, 2);
    s.append("-");
    push_padded(&mut s, d as u64, 2);
    s.append("T");
    push_padded(&mut s, secs / 3600, 2);
    s.append(":");
    push_padded(&mut s, (secs % 3600) / 60, 2);
    s.append(":");
    push_padded(&mut s, secs % 60, 2);
    if frac_ns != 0 {
        s.append(".");
        push_fraction(&mut s, frac_ns, 9);
    }
    proof {
        reveal_strlit("-");
        reveal_strlit("T");
        reveal_strlit(":");
        reveal_strlit(".");
        assert(s@ =~= datetime_text(dt.days as int, dt.seconds_fragments as nat));
    }
    s
}

} // verus!
