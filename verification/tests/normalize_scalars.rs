use tiberius_row::column::{ColumnValue, FloatValue, NumericValue};
use tiberius_row::node::{DocumentNode, NumberValue};
use tiberius_row::normalize::{normalize, NormalizeError};

#[test]
fn absent_values_become_null_nodes() {
    let absent = vec![
        ColumnValue::U8(None),
        ColumnValue::I16(None),
        ColumnValue::I32(None),
        ColumnValue::I64(None),
        ColumnValue::F32(None),
        ColumnValue::F64(None),
        ColumnValue::Bit(None),
        ColumnValue::Guid(None),
        ColumnValue::Binary(None),
        ColumnValue::Numeric(None),
        ColumnValue::DateTime(None),
        ColumnValue::SmallDateTime(None),
        ColumnValue::Time(None),
        ColumnValue::Date(None),
        ColumnValue::DateTime2(None),
        ColumnValue::DateTimeOffset(None),
    ];
    for v in absent {
        assert_eq!(normalize(&v), Ok(DocumentNode::Null));
    }
}

#[test]
fn absent_textual_values_become_empty_text() {
    assert_eq!(
        normalize(&ColumnValue::Text(None)),
        Ok(DocumentNode::Text(String::new()))
    );
    assert_eq!(
        normalize(&ColumnValue::Xml(None)),
        Ok(DocumentNode::Text(String::new()))
    );
}

#[test]
fn present_integers_round_trip() {
    assert_eq!(
        normalize(&ColumnValue::I64(Some(-42))),
        Ok(DocumentNode::Number(NumberValue::Int(-42)))
    );
    assert_eq!(
        normalize(&ColumnValue::I32(Some(7))),
        Ok(DocumentNode::Number(NumberValue::Int(7)))
    );
    assert_eq!(
        normalize(&ColumnValue::I16(Some(-300))),
        Ok(DocumentNode::Number(NumberValue::Int(-300)))
    );
    assert_eq!(
        normalize(&ColumnValue::U8(Some(255))),
        Ok(DocumentNode::Number(NumberValue::UInt(255)))
    );
}

#[test]
fn present_bool_and_text_round_trip() {
    assert_eq!(
        normalize(&ColumnValue::Bit(Some(true))),
        Ok(DocumentNode::Bool(true))
    );
    assert_eq!(
        normalize(&ColumnValue::Text(Some("Ada".to_string()))),
        Ok(DocumentNode::Text("Ada".to_string()))
    );
    assert_eq!(
        normalize(&ColumnValue::Xml(Some("<a/>".to_string()))),
        Ok(DocumentNode::Text("<a/>".to_string()))
    );
}

#[test]
fn finite_float_becomes_number_node() {
    let v = 7.5f64;
    let f = if v.is_finite() {
        FloatValue::Finite(v.to_string())
    } else {
        FloatValue::NonFinite(v.to_string())
    };
    assert_eq!(
        normalize(&ColumnValue::F64(Some(f))),
        Ok(DocumentNode::Number(NumberValue::Float("7.5".to_string())))
    );
}

#[test]
fn non_finite_float_falls_back_to_text() {
    let v = f64::INFINITY;
    let f = if v.is_finite() {
        FloatValue::Finite(v.to_string())
    } else {
        FloatValue::NonFinite(v.to_string())
    };
    assert_eq!(
        normalize(&ColumnValue::F64(Some(f))),
        Ok(DocumentNode::Text("inf".to_string()))
    );
}

#[test]
fn binary_blob_base64_round_trips() {
    let bytes = vec![0x00u8, 0xFF, 0x10];
    let node = normalize(&ColumnValue::Binary(Some(bytes.clone()))).unwrap();
    match node {
        DocumentNode::Text(s) => {
            assert_eq!(s, base64::encode(&bytes));
            assert_eq!(s, "AP8Q");
            assert_eq!(base64::decode(&s).unwrap(), bytes);
        }
        other => panic!("expected a text node, got {:?}", other),
    }
}

#[test]
fn guid_renders_hyphenated_hex() {
    let bytes: [u8; 16] = [
        0x00, 0x11, 0x22, 0x33, 0x44, 0x55, 0x66, 0x77, 0x88, 0x99, 0xaa, 0xbb, 0xcc, 0xdd, 0xee,
        0xff,
    ];
    assert_eq!(
        normalize(&ColumnValue::Guid(Some(bytes))),
        Ok(DocumentNode::Text(
            "00112233-4455-6677-8899-aabbccddeeff".to_string()
        ))
    );
}

#[test]
fn numeric_renders_with_scale() {
    assert_eq!(
        normalize(&ColumnValue::Numeric(Some(NumericValue {
            value: 12345,
            scale: 2,
        }))),
        Ok(DocumentNode::Text("123.45".to_string()))
    );
    assert_eq!(
        normalize(&ColumnValue::Numeric(Some(NumericValue {
            value: 7,
            scale: 0,
        }))),
        Ok(DocumentNode::Text("7.0".to_string()))
    );
}

#[test]
fn unsupported_kind_always_fails() {
    let r = normalize(&ColumnValue::Unsupported("Money(Some(1.25))".to_string()));
    assert_eq!(
        r,
        Err(NormalizeError::UnsupportedColumnKind(
            "unsupported column kind: Money(Some(1.25))".to_string()
        ))
    );
}
