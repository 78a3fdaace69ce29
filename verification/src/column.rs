//! The typed column values a database row delivers, modeled as plain values.

use vstd::prelude::*;

verus! {

/// A double-precision value as it enters the library: already classified as
/// finite or not, and carried as its decimal rendering. The classification
/// and the rendering are produced at the boundary (floating-point values
/// themselves stay outside the verified code).
#[derive(Debug, Clone, PartialEq)]
pub enum FloatValue {
    /// A finite number and its decimal rendering.
    Finite(String),
    /// A non-finite value (a NaN or an infinity) and its rendering.
    NonFinite(String),
}

/// Model of a `FloatValue`.
pub enum FloatView {
    Finite(Seq<char>),
    NonFinite(Seq<char>),
}

impl View for FloatValue {
    type V = FloatView;

    open spec fn view(&self) -> FloatView {
        match self {
            FloatValue::Finite(t) => FloatView::Finite(t@),
            FloatValue::NonFinite(t) => FloatView::NonFinite(t@),
        }
    }
}

/// A fixed-point decimal: an integer value with the position of the decimal
/// point. A wire value never carries a scale above 37.
#[derive(Debug, Clone, Copy, PartialEq, Eq, Structural)]
pub struct NumericValue {
    /// The unscaled integer value.
    pub value: i128,
    /// How many of the value's trailing digits lie behind the decimal point.
    pub scale: u8,
}

/// The legacy combined date-time wire value: a signed day count from
/// 1900-01-01 and the number of 1/300-second fragments since midnight.
#[derive(Debug, Clone, Copy, PartialEq, Eq, Structural)]
pub struct DateTimeValue {
    /// Days since 1900-01-01; negative days lie before the epoch.
    pub days: i32,
    /// 1/300 fractions of a second, so 300 fragments equal one second.
    pub seconds_fragments: u32,
}

/// The small-range combined date-time wire value.
#[derive(Debug, Clone, Copy, PartialEq, Eq, Structural)]
pub struct SmallDateTimeValue {
    /// Days since 1900-01-01.
    pub days: u16,
    /// Whole minutes since midnight.
    pub seconds_fragments: u16,
}

/// The time-only wire value: increments of 10^-scale seconds since midnight.
#[derive(Debug, Clone, Copy, PartialEq, Eq, Structural)]
pub struct TimeValue {
    /// Number of 10^-scale second increments since midnight.
    pub increments: u64,
    /// The accuracy of the increments.
    pub scale: u8,
}

/// The date-only wire value.
#[derive(Debug, Clone, Copy, PartialEq, Eq, Structural)]
pub struct DateValue {
    /// Days since 0001-01-01.
    pub days: u32,
}

/// The high-precision combined date-time wire value.
#[derive(Debug, Clone, Copy, PartialEq, Eq, Structural)]
pub struct DateTime2Value {
    /// The calendar day.
    pub date: DateValue,
    /// The time of day.
    pub time: TimeValue,
}

/// The offset-aware combined date-time wire value.
#[derive(Debug, Clone, Copy, PartialEq, Eq, Structural)]
pub struct DateTimeOffsetValue {
    /// The instant in UTC.
    pub datetime2: DateTime2Value,
    /// The UTC offset in minutes.
    pub offset: i16,
}

/// Model of a `ColumnValue`: text and byte payloads become sequences, all
/// other fields are plain values already.
pub enum ColumnView {
    U8(Option<u8>),
    I16(Option<i16>),
    I32(Option<i32>),
    I64(Option<i64>),
    F32(Option<FloatView>),
    F64(Option<FloatView>),
    Bit(Option<bool>),
    Text(Option<Seq<char>>),
    Guid(Option<Seq<u8>>),
    Binary(Option<Seq<u8>>),
    Numeric(Option<NumericValue>),
    Xml(Option<Seq<char>>),
    DateTime(Option<DateTimeValue>),
    SmallDateTime(Option<SmallDateTimeValue>),
    Time(Option<TimeValue>),
    Date(Option<DateValue>),
    DateTime2(Option<DateTime2Value>),
    DateTimeOffset(Option<DateTimeOffsetValue>),
    Unsupported(Seq<char>),
}

/// One typed column value of a row, tagged with its wire kind. Every kind
/// carries an absence state independent of the empty value.
#[derive(Debug, Clone, PartialEq)]
pub enum ColumnValue {
    /// 8-bit integer, unsigned.
    U8(Option<u8>),
    /// 16-bit integer, signed.
    I16(Option<i16>),
    /// 32-bit integer, signed.
    I32(Option<i32>),
    /// 64-bit integer, signed.
    I64(Option<i64>),
    /// Single-precision floating point, pre-classified at the boundary.
    F32(Option<FloatValue>),
    /// Double-precision floating point, pre-classified at the boundary.
    F64(Option<FloatValue>),
    /// A boolean bit.
    Bit(Option<bool>),
    /// Character data of any length.
    Text(Option<String>),
    /// A globally-unique identifier, as its sixteen raw bytes.
    Guid(Option<[u8; 16]>),
    /// A binary blob.
    Binary(Option<Vec<u8>>),
    /// A fixed-point decimal.
    Numeric(Option<NumericValue>),
    /// XML character data.
    Xml(Option<String>),
    /// The legacy combined date-time.
    DateTime(Option<DateTimeValue>),
    /// The small-range combined date-time.
    SmallDateTime(Option<SmallDateTimeValue>),
    /// The time-only value.
    Time(Option<TimeValue>),
    /// The date-only value.
    Date(Option<DateValue>),
    /// The high-precision combined date-time.
    DateTime2(Option<DateTime2Value>),
    /// The offset-aware combined date-time.
    DateTimeOffset(Option<DateTimeOffsetValue>),
    /// A wire kind outside the enumerated set, carrying its debug rendering.
    Unsupported(String),
}

impl View for ColumnValue {
    type V = ColumnView;

    open spec fn view(&self) -> ColumnView {
        match self {
            ColumnValue::U8(v) => ColumnView::U8(*v),
            ColumnValue::I16(v) => ColumnView::I16(*v),
            ColumnValue::I32(v) => ColumnView::I32(*v),
            ColumnValue::I64(v) => ColumnView::I64(*v),
            ColumnValue::F32(v) => ColumnView::F32(
                match v {
                    Some(f) => Some(f@),
                    None => None,
                },
            ),
            ColumnValue::F64(v) => ColumnView::F64(
                match v {
                    Some(f) => Some(f@),
                    None => None,
                },
            ),
            ColumnValue::Bit(v) => ColumnView::Bit(*v),
            ColumnValue::Text(v) => ColumnView::Text(
                match v {
                    Some(s) => Some(s@),
                    None => None,
                },
            ),
            ColumnValue::Guid(v) => ColumnView::Guid(
                match v {
                    Some(b) => Some(b@),
                    None => None,
                },
            ),
            ColumnValue::Binary(v) => ColumnView::Binary(
                match v {
                    Some(b) => Some(b@),
                    None => None,
                },
            ),
            ColumnValue::Numeric(v) => ColumnView::Numeric(*v),
            ColumnValue::Xml(v) => ColumnView::Xml(
                match v {
                    Some(s) => Some(s@),
                    None => None,
                },
            ),
            ColumnValue::DateTime(v) => ColumnView::DateTime(*v),
            ColumnValue::SmallDateTime(v) => ColumnView::SmallDateTime(*v),
            ColumnValue::Time(v) => ColumnView::Time(*v),
            ColumnValue::Date(v) => ColumnView::Date(*v),
            ColumnValue::DateTime2(v) => ColumnView::DateTime2(*v),
            ColumnValue::DateTimeOffset(v) => ColumnView::DateTimeOffset(*v),
            ColumnValue::Unsupported(s) => ColumnView::Unsupported(s@),
        }
    }
}

/// Well-formedness of one column value: the decimal scale a wire value can
/// actually carry.
pub open spec fn column_wf(v: ColumnView) -> bool {
    match v {
        ColumnView::Numeric(Some(n)) => n.scale <= 37,
        _ => true,
    }
}

} // verus!
