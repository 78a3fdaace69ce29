use tiberius_row::column::{ColumnValue, DateTime2Value, DateValue, TimeValue};
use tiberius_row::document::{document_from_row, DecodeError, Document};
use tiberius_row::node::{DocumentNode, NumberValue};
use tiberius_row::normalize::NormalizeError;

struct Record {
    id: i32,
    name: String,
    active: bool,
}

fn row() -> Vec<(String, ColumnValue)> {
    vec![
        ("id".to_string(), ColumnValue::I32(Some(7))),
        ("name".to_string(), ColumnValue::Text(Some("Ada".to_string()))),
        ("active".to_string(), ColumnValue::Bit(Some(true))),
    ]
}

#[test]
fn three_columns_decode_into_a_record() {
    let doc = document_from_row(&row()).unwrap();
    let record = Record {
        id: doc.get_i32("id").unwrap(),
        name: doc.get_text("name").unwrap(),
        active: doc.get_bool("active").unwrap(),
    };
    assert_eq!(record.id, 7);
    assert_eq!(record.name, "Ada");
    assert!(record.active);
}

#[test]
fn incompatible_field_type_fails_decode() {
    let doc = document_from_row(&row()).unwrap();
    assert_eq!(
        doc.get_i64("active"),
        Err(DecodeError::IncompatibleType("active".to_string()))
    );
}

#[test]
fn missing_field_fails_decode() {
    let doc = document_from_row(&row()).unwrap();
    assert_eq!(
        doc.get_bool("archived"),
        Err(DecodeError::MissingField("archived".to_string()))
    );
}

#[test]
fn duplicate_name_keeps_position_and_last_node() {
    let mut doc = Document::new();
    doc.insert("a".to_string(), DocumentNode::Number(NumberValue::Int(1)));
    doc.insert("b".to_string(), DocumentNode::Number(NumberValue::Int(2)));
    doc.insert("a".to_string(), DocumentNode::Number(NumberValue::Int(3)));
    assert_eq!(doc.len(), 2);
    assert_eq!(doc.get_i64("a"), Ok(3));
    assert_eq!(doc.get_i64("b"), Ok(2));
}

#[test]
fn unsupported_column_fails_the_whole_row() {
    let mut cols = row();
    cols.push((
        "price".to_string(),
        ColumnValue::Unsupported("Money(Some(1.25))".to_string()),
    ));
    assert_eq!(
        document_from_row(&cols),
        Err(NormalizeError::UnsupportedColumnKind(
            "unsupported column kind: Money(Some(1.25))".to_string()
        ))
    );
}

#[test]
fn malformed_temporal_column_does_not_abort_the_row() {
    let mut cols = row();
    cols.push((
        "seen".to_string(),
        ColumnValue::DateTime2(Some(DateTime2Value {
            date: DateValue { days: 4_000_000 },
            time: TimeValue {
                increments: 0,
                scale: 0,
            },
        })),
    ));
    let doc = document_from_row(&cols).unwrap();
    assert_eq!(doc.get_node("seen"), Some(&DocumentNode::Null));
    assert_eq!(doc.get_i32("id"), Ok(7));
    assert_eq!(doc.get_text("name").unwrap(), "Ada");
}

#[test]
fn narrowing_rejects_out_of_width_numbers() {
    let cols = vec![(
        "big".to_string(),
        ColumnValue::I64(Some(i64::from(i32::MAX) + 1)),
    )];
    let doc = document_from_row(&cols).unwrap();
    assert_eq!(doc.get_i64("big"), Ok(i64::from(i32::MAX) + 1));
    assert_eq!(
        doc.get_i32("big"),
        Err(DecodeError::IncompatibleType("big".to_string()))
    );
}

#[test]
fn unsigned_numbers_narrow_when_they_fit() {
    let cols = vec![("tiny".to_string(), ColumnValue::U8(Some(200)))];
    let doc = document_from_row(&cols).unwrap();
    assert_eq!(doc.get_i64("tiny"), Ok(200));
    assert_eq!(doc.get_i32("tiny"), Ok(200));
}

#[test]
fn absent_text_decodes_as_empty_string() {
    let cols = vec![("note".to_string(), ColumnValue::Text(None))];
    let doc = document_from_row(&cols).unwrap();
    assert_eq!(doc.get_text("note").unwrap(), "");
}

#[test]
fn null_node_is_not_text() {
    let cols = vec![("gone".to_string(), ColumnValue::I32(None))];
    let doc = document_from_row(&cols).unwrap();
    assert_eq!(doc.get_node("gone"), Some(&DocumentNode::Null));
    assert_eq!(
        doc.get_text("gone"),
        Err(DecodeError::IncompatibleType("gone".to_string()))
    );
}

#[test]
fn empty_row_becomes_empty_document() {
    let doc = document_from_row(&Vec::new()).unwrap();
    assert_eq!(doc.len(), 0);
    assert_eq!(doc.get_node("anything"), None);
}
