use tiberius_row::column::{
    ColumnValue, DateTime2Value, DateTimeOffsetValue, DateTimeValue, DateValue,
    SmallDateTimeValue, TimeValue,
};
use tiberius_row::node::DocumentNode;
use tiberius_row::normalize::normalize;

fn text_of(v: &ColumnValue) -> String {
    match normalize(v).unwrap() {
        DocumentNode::Text(s) => s,
        other => panic!("expected a text node, got {:?}", other),
    }
}

#[test]
fn datetime_epoch_midnight() {
    let v = ColumnValue::DateTime(Some(DateTimeValue {
        days: 0,
        seconds_fragments: 0,
    }));
    assert_eq!(text_of(&v), "1900-01-01T00:00:00");
}

#[test]
fn datetime_half_second_fragment() {
    let v = ColumnValue::DateTime(Some(DateTimeValue {
        days: 1,
        seconds_fragments: 150,
    }));
    assert_eq!(text_of(&v), "1900-01-02T00:00:00.5");
}

#[test]
fn datetime_single_fragment_truncates_nanos() {
    let v = ColumnValue::DateTime(Some(DateTimeValue {
        days: 0,
        seconds_fragments: 1,
    }));
    assert_eq!(text_of(&v), "1900-01-01T00:00:00.003333333");
}

#[test]
fn datetime_time_of_day() {
    // 12:34:56 = 45296 seconds.
    let v = ColumnValue::DateTime(Some(DateTimeValue {
        days: 36890,
        seconds_fragments: 45296 * 300,
    }));
    assert_eq!(text_of(&v), "2001-01-01T12:34:56");
}

#[test]
fn datetime_fragments_spill_into_next_day() {
    // A whole day of fragments moves the date forward.
    let v = ColumnValue::DateTime(Some(DateTimeValue {
        days: 0,
        seconds_fragments: 86_400 * 300,
    }));
    assert_eq!(text_of(&v), "1900-01-02T00:00:00");
}

#[test]
fn datetime_before_epoch() {
    let v = ColumnValue::DateTime(Some(DateTimeValue {
        days: -1,
        seconds_fragments: 0,
    }));
    assert_eq!(text_of(&v), "1899-12-31T00:00:00");
}

#[test]
fn datetime_leap_day() {
    // 2004-02-29 is day 38045: 104 years of which 25 are leap, plus
    // January and the first 28 days of February.
    let v = ColumnValue::DateTime(Some(DateTimeValue {
        days: 104 * 365 + 25 + 31 + 28,
        seconds_fragments: 0,
    }));
    assert_eq!(text_of(&v), "2004-02-29T00:00:00");
}

#[test]
fn smalldatetime_renders_via_delegated_decode() {
    let v = ColumnValue::SmallDateTime(Some(SmallDateTimeValue {
        days: 1,
        seconds_fragments: 90,
    }));
    assert_eq!(text_of(&v), "1900-01-02 1:30:00.0");
}

#[test]
fn date_renders_via_delegated_decode() {
    // 730119 days after 0001-01-01 is 2000-01-01.
    let v = ColumnValue::Date(Some(DateValue { days: 730_119 }));
    assert_eq!(text_of(&v), "2000-01-01");
}

#[test]
fn time_renders_via_delegated_decode() {
    let v = ColumnValue::Time(Some(TimeValue {
        increments: 123_456_789,
        scale: 7,
    }));
    assert_eq!(text_of(&v), "0:00:12.3456789");
}

#[test]
fn datetime2_renders_with_t_separator() {
    let v = ColumnValue::DateTime2(Some(DateTime2Value {
        date: DateValue { days: 730_119 },
        time: TimeValue {
            increments: 45_296_789,
            scale: 3,
        },
    }));
    assert_eq!(text_of(&v), "2000-01-01T12:34:56.789");
}

#[test]
fn datetimeoffset_shifts_to_its_offset() {
    let v = ColumnValue::DateTimeOffset(Some(DateTimeOffsetValue {
        datetime2: DateTime2Value {
            date: DateValue { days: 730_119 },
            time: TimeValue {
                increments: 45_296_789,
                scale: 3,
            },
        },
        offset: 90,
    }));
    assert_eq!(text_of(&v), "2000-01-01 14:04:56.789 +01:30:00");
}

#[test]
fn out_of_range_date_degrades_to_null() {
    let v = ColumnValue::Date(Some(DateValue { days: 4_000_000 }));
    assert_eq!(normalize(&v), Ok(DocumentNode::Null));
}

#[test]
fn malformed_datetime2_degrades_to_null() {
    let v = ColumnValue::DateTime2(Some(DateTime2Value {
        date: DateValue { days: 4_000_000 },
        time: TimeValue {
            increments: 0,
            scale: 0,
        },
    }));
    assert_eq!(normalize(&v), Ok(DocumentNode::Null));
    let with_bad_scale = ColumnValue::DateTime2(Some(DateTime2Value {
        date: DateValue { days: 0 },
        time: TimeValue {
            increments: 0,
            scale: 10,
        },
    }));
    assert_eq!(normalize(&with_bad_scale), Ok(DocumentNode::Null));
}

#[test]
fn datetime_extreme_values_still_render() {
    let v = ColumnValue::DateTime(Some(DateTimeValue {
        days: i32::MIN,
        seconds_fragments: u32::MAX,
    }));
    // u32::MAX fragments are 14316557 whole seconds: 165 days spill over,
    // 60557 seconds (16:49:17) remain, and 195 fragments leave 0.65 seconds.
    let s = text_of(&v);
    assert!(s.ends_with("T16:49:17.65"), "got {}", s);
    assert!(s.starts_with('-'), "got {}", s);
}

#[test]
fn datetimeoffset_negative_offset() {
    let v = ColumnValue::DateTimeOffset(Some(DateTimeOffsetValue {
        datetime2: DateTime2Value {
            date: DateValue { days: 730_119 },
            time: TimeValue {
                increments: 45_296_789,
                scale: 3,
            },
        },
        offset: -90,
    }));
    assert_eq!(text_of(&v), "2000-01-01 11:04:56.789 -01:30:00");
}
