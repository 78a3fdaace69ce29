//! The five richer temporal kinds, whose decoding is delegated to the
//! database client crate.
//!
//! The client crate's decode routines do not accept every wire value: a date
//! beyond the supported calendar range, a precision above nine digits, or an
//! offset outside the representable range cannot be decoded. Verified code
//! checks those ranges first; a value outside them degrades to a null node
//! rather than failing the whole row.

use vstd::prelude::*;

use tiberius::FromSql;

use crate::column::{DateTime2Value, DateTimeOffsetValue, DateValue, SmallDateTimeValue, TimeValue};
use crate::node::{DocumentNode, NodeView};

verus! {

/// Ten to the power `k`.
pub open spec fn pow10(k: nat) -> nat
    decreases k,
{
    if k == 0 {
        1
    } else {
        10 * pow10((k - 1) as nat)
    }
}

/// `pow10` is positive and monotone.
pub proof fn lemma_pow10_mono(k1: nat, k2: nat)
    requires
        k1 <= k2,
    ensures
        1 <= pow10(k1) <= pow10(k2),
    decreases k2,
{
    if k2 > 0 {
        if k1 == k2 {
            lemma_pow10_mono(0, (k2 - 1) as nat);
        } else {
            lemma_pow10_mono(k1, (k2 - 1) as nat);
        }
    }
}

/// Ten to the power `k`, executable.
pub fn pow10_u64(k: u8) -> (r: u64)
    requires
        k <= 9,
    ensures
        r == pow10(k as nat),
        1 <= r <= 1_000_000_000,
    decreases k,
{
    proof {
        reveal_with_fuel(pow10, 10);
    }
    if k == 0 {
        1
    } else {
        let sub = pow10_u64(k - 1);
        proof {
            lemma_pow10_mono((k - 1) as nat, 8);
        }
        10 * sub
    }
}

/// The greatest day count the delegated date decoding accepts: the last day
/// of year 9999, counted from 0001-01-01.
pub open spec fn date_days_in_range(days: u32) -> bool {
    days <= 3652058
}

/// Whether a time-of-day wire value can be decoded: the scale is at most
/// nine digits and the nanosecond conversion fits the machine word.
pub open spec fn time_in_range(t: TimeValue) -> bool {
    t.scale <= 9 && t.increments * pow10((9 - t.scale) as nat) <= u64::MAX
}

/// Whether a high-precision combined date-time wire value can be decoded.
pub open spec fn datetime2_in_range(v: DateTime2Value) -> bool {
    date_days_in_range(v.date.days) && time_in_range(v.time)
}

/// Whether an offset-aware wire value can be decoded: besides its
/// date-time's own ranges, the offset must be representable and shifting
/// the instant by it must stay inside the supported calendar range.
pub open spec fn datetimeoffset_in_range(v: DateTimeOffsetValue) -> bool {
    &&& datetime2_in_range(v.datetime2)
    &&& -1559 <= v.offset <= 1559
    &&& v.datetime2.date.days * 86_400_000_000_000 + (v.datetime2.time.increments * pow10(
        (9 - v.datetime2.time.scale) as nat,
    )) % 86_400_000_000_000 + v.offset * 60_000_000_000 < 3652059 * 86_400_000_000_000
}

/// The text of a decoded small-range combined date-time; every wire value
/// of this kind decodes.
pub uninterp spec fn smalldatetime_text(days: u16, minutes: u16) -> Seq<char>;

/// The text of a decoded time-of-day value.
pub uninterp spec fn time_text(increments: u64, scale: u8) -> Seq<char>;

/// The text of a decoded date-only value.
pub uninterp spec fn date_text(days: u32) -> Seq<char>;

/// The text of a decoded high-precision combined date-time, with a `T`
/// between the date and the time.
pub uninterp spec fn datetime2_text(days: u32, increments: u64, scale: u8) -> Seq<char>;

/// The text of a decoded offset-aware combined date-time.
pub uninterp spec fn datetimeoffset_text(days: u32, increments: u64, scale: u8, offset: i16) -> Seq<
    char,
>;

/// Relies on PrimitiveDateTime::from_sql for the small date-time wire kind
/// (1900-01-01 plus the days, plus the minutes, wrapped within the day) and
/// on its Display. The decode cannot fail: the day count stays well inside
/// the supported calendar years.
#[verifier::external_body]
fn smalldatetime_string(days: u16, minutes: u16) -> (r: String)
    ensures
        r@ == smalldatetime_text(days, minutes),
{
    let v = tiberius::time::SmallDateTime::new(days, minutes);
    let decoded = tiberius::time::time::PrimitiveDateTime::from_sql(
        &tiberius::ColumnData::SmallDateTime(Some(v)),
    );
    match decoded {
        Ok(Some(d)) => d.to_string(),
        _ => String::new(),
    }
}

/// Relies on Time::from_sql (increments of 10^-scale seconds since
/// midnight, wrapped within the day) and on its Display. The range bounds
/// keep the nanosecond conversion from overflowing, so the decode cannot
/// fail.
#[verifier::external_body]
fn time_string(increments: u64, scale: u8) -> (r: String)
    requires
        scale <= 9,
        increments * pow10((9 - scale) as nat) <= u64::MAX,
    ensures
        r@ == time_text(increments, scale),
{
    let v = tiberius::time::Time::new(increments, scale);
    let decoded = tiberius::time::time::Time::from_sql(&tiberius::ColumnData::Time(Some(v)));
    match decoded {
        Ok(Some(d)) => d.to_string(),
        _ => String::new(),
    }
}

/// Relies on Date::from_sql (0001-01-01 plus the days) and on its Display.
/// The day bound keeps the result inside the supported calendar years, so
/// the decode cannot fail.
#[verifier::external_body]
fn date_string(days: u32) -> (r: String)
    requires
        date_days_in_range(days),
    ensures
        r@ == date_text(days),
{
    let v = tiberius::time::Date::new(days);
    let decoded = tiberius::time::time::Date::from_sql(&tiberius::ColumnData::Date(Some(v)));
    match decoded {
        Ok(Some(d)) => d.to_string(),
        _ => String::new(),
    }
}

/// Relies on PrimitiveDateTime::from_sql for the high-precision wire kind
/// and on its Display; the separating space of the rendering is replaced by
/// the literal `T`. The range bounds make the decode infallible.
#[verifier::external_body]
fn datetime2_string(days: u32, increments: u64, scale: u8) -> (r: String)
    requires
        date_days_in_range(days),
        scale <= 9,
        increments * pow10((9 - scale) as nat) <= u64::MAX,
    ensures
        r@ == datetime2_text(days, increments, scale),
{
    let v = tiberius::time::DateTime2::new(
        tiberius::time::Date::new(days),
        tiberius::time::Time::new(increments, scale),
    );
    let decoded = tiberius::time::time::PrimitiveDateTime::from_sql(
        &tiberius::ColumnData::DateTime2(Some(v)),
    );
    match decoded {
        Ok(Some(d)) => d.to_string().replace(" ", "T"),
        _ => String::new(),
    }
}

/// Relies on OffsetDateTime::from_sql (the high-precision decoding, taken
/// as UTC and shifted to the stored offset) and on its Display. The range
/// bounds make the decode infallible.
#[verifier::external_body]
fn datetimeoffset_string(days: u32, increments: u64, scale: u8, offset: i16) -> (r: String)
    requires
        date_days_in_range(days),
        scale <= 9,
        increments * pow10((9 - scale) as nat) <= u64::MAX,
        -1559 <= offset <= 1559,
        days * 86_400_000_000_000 + (increments * pow10((9 - scale) as nat))
            % 86_400_000_000_000 + offset * 60_000_000_000 < 3652059 * 86_400_000_000_000,
    ensures
        r@ == datetimeoffset_text(days, increments, scale, offset),
{
    let v = tiberius::time::DateTimeOffset::new(
        tiberius::time::DateTime2::new(
            tiberius::time::Date::new(days),
            tiberius::time::Time::new(increments, scale),
        ),
        offset,
    );
    let decoded = tiberius::time::time::OffsetDateTime::from_sql(
        &tiberius::ColumnData::DateTimeOffset(Some(v)),
    );
    match decoded {
        Ok(Some(d)) => d.to_string(),
        _ => String::new(),
    }
}

/// Whether the nanosecond conversion of a time-of-day value fits the
/// machine word; the executable side of `time_in_range`.
fn increments_fit(increments: u64, scale: u8) -> (b: bool)
    requires
        scale <= 9,
    ensures
        b == (increments * pow10((9 - scale) as nat) <= u64::MAX),
{
    let p = pow10_u64(9 - scale);
    let q = u64::MAX / p;
    let fits = increments <= q;
    proof {
        let pi = p as int;
        let m = u64::MAX as int;
        let inc = increments as int;
        vstd::arithmetic::div_mod::lemma_fundamental_div_mod(m, pi);
        vstd::arithmetic::div_mod::lemma_mod_bound(m, pi);
        if fits {
            vstd::arithmetic::mul::lemma_mul_inequality(inc, m / pi, pi);
            assert((m / pi) * pi <= m);
        } else {
            vstd::arithmetic::mul::lemma_mul_inequality(m / pi + 1, inc, pi);
            assert((m / pi + 1) * pi == (m / pi) * pi + pi) by (nonlinear_arith);
            assert((m / pi) * pi + pi > m);
        }
    }
    fits
}

/// The node a small-range combined date-time becomes: always its text.
pub fn smalldatetime_node(v: &SmallDateTimeValue) -> (n: DocumentNode)
    ensures
        n@ == NodeView::Text(smalldatetime_text(v.days, v.seconds_fragments)),
{
    DocumentNode::Text(smalldatetime_string(v.days, v.seconds_fragments))
}

/// The node a time-of-day value becomes.
pub open spec fn time_node_model(v: TimeValue) -> NodeView {
    if time_in_range(v) {
        NodeView::Text(time_text(v.increments, v.scale))
    } else {
        NodeView::Null
    }
}

/// Decodes a time-of-day value to its text node, or to a null node when the
/// value is out of range.
pub fn time_node(v: &TimeValue) -> (n: DocumentNode)
    ensures
        n@ == time_node_model(*v),
{
    if v.scale <= 9 && increments_fit(v.increments, v.scale) {
        DocumentNode::Text(time_string(v.increments, v.scale))
    } else {
        DocumentNode::Null
    }
}

/// The node a date-only value becomes.
pub open spec fn date_node_model(v: DateValue) -> NodeView {
    if date_days_in_range(v.days) {
        NodeView::Text(date_text(v.days))
    } else {
        NodeView::Null
    }
}

/// Decodes a date-only value to its text node, or to a null node when the
/// value is out of range.
pub fn date_node(v: &DateValue) -> (n: DocumentNode)
    ensures
        n@ == date_node_model(*v),
{
    if v.days <= 3652058 {
        DocumentNode::Text(date_string(v.days))
    } else {
        DocumentNode::Null
    }
}

/// The node a high-precision combined date-time becomes.
pub open spec fn datetime2_node_model(v: DateTime2Value) -> NodeView {
    if datetime2_in_range(v) {
        NodeView::Text(datetime2_text(v.date.days, v.time.increments, v.time.scale))
    } else {
        NodeView::Null
    }
}

/// Decodes a high-precision combined date-time to its text node, or to a
/// null node when any component is out of range.
pub fn datetime2_node(v: &DateTime2Value) -> (n: DocumentNode)
    ensures
        n@ == datetime2_node_model(*v),
{
    if v.date.days <= 3652058 && v.time.scale <= 9 && increments_fit(
        v.time.increments,
        v.time.scale,
    ) {
        DocumentNode::Text(datetime2_string(v.date.days, v.time.increments, v.time.scale))
    } else {
        DocumentNode::Null
    }
}

/// The node an offset-aware combined date-time becomes.
pub open spec fn datetimeoffset_node_model(v: DateTimeOffsetValue) -> NodeView {
    if datetimeoffset_in_range(v) {
        NodeView::Text(
            datetimeoffset_text(
                v.datetime2.date.days,
                v.datetime2.time.increments,
                v.datetime2.time.scale,
                v.offset,
            ),
        )
    } else {
        NodeView::Null
    }
}

/// Decodes an offset-aware combined date-time to its text node, or to a
/// null node when any component is out of range.
pub fn datetimeoffset_node(v: &DateTimeOffsetValue) -> (n: DocumentNode)
    ensures
        n@ == datetimeoffset_node_model(*v),
{
    let dt2 = &v.datetime2;
    if dt2.date.days <= 3652058 && dt2.time.scale <= 9 && increments_fit(
        dt2.time.increments,
        dt2.time.scale,
    ) && -1559 <= v.offset && v.offset <= 1559 {
        let p = pow10_u64(9 - dt2.time.scale);
        let ns: u64 = dt2.time.increments * p;
        let ns_in_day: u64 = ns % 86_400_000_000_000;
        let total: i128 = dt2.date.days as i128 * 86_400_000_000_000 + ns_in_day as i128
            + v.offset as i128 * 60_000_000_000;
        if total < 315_537_897_600_000_000_000i128 {
            DocumentNode::Text(
                datetimeoffset_string(
                    dt2.date.days,
                    dt2.time.increments,
                    dt2.time.scale,
                    v.offset,
                ),
            )
        } else {
            DocumentNode::Null
        }
    } else {
        DocumentNode::Null
    }
}

} // verus!
