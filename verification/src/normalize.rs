//! Normalization of one typed column value into one document node.

use vstd::prelude::*;
use vstd::string::*;

use crate::codec::{base64_text, base64_string, guid_text, guid_string, numeric_text,
    numeric_string};
use crate::column::{column_wf, ColumnValue, ColumnView, FloatValue, FloatView};
use crate::delegated::{date_node, date_node_model, datetime2_node, datetime2_node_model,
    datetime2_in_range, datetimeoffset_in_range, datetimeoffset_node, datetimeoffset_node_model,
    date_days_in_range, smalldatetime_node, smalldatetime_text, time_in_range, time_node,
    time_node_model};
use crate::node::{DocumentNode, NodeView, NumberValue, NumberView};
use crate::temporal::{datetime_node_text, datetime_text};

verus! {

/// Model of a normalization failure.
pub enum NormalizeErrorView {
    UnsupportedColumnKind(Seq<char>),
    TemporalDecodeFailure,
}

/// Why one column could not be normalized; fatal for the whole row.
#[derive(Debug, Clone, PartialEq)]
pub enum NormalizeError {
    /// The column's wire kind lies outside the enumerated set; carries a
    /// message naming the offending value.
    UnsupportedColumnKind(String),
    /// Reserved for the epoch-arithmetic path of the legacy date-time
    /// reconstruction; that path is total, so this failure is never
    /// produced.
    TemporalDecodeFailure,
}

impl View for NormalizeError {
    type V = NormalizeErrorView;

    open spec fn view(&self) -> NormalizeErrorView {
        match self {
            NormalizeError::UnsupportedColumnKind(s) => NormalizeErrorView::UnsupportedColumnKind(
                s@,
            ),
            NormalizeError::TemporalDecodeFailure => NormalizeErrorView::TemporalDecodeFailure,
        }
    }
}

/// The message an unsupported wire kind fails with.
pub open spec fn unsupported_message(rendering: Seq<char>) -> Seq<char> {
    "unsupported column kind: "@ + rendering
}

/// The node (or failure) each column value normalizes to.
pub open spec fn normalize_model(v: ColumnView) -> Result<NodeView, NormalizeErrorView> {
    match v {
        ColumnView::U8(ov) => Ok(
            match ov {
                Some(n) => NodeView::Number(NumberView::UInt(n as u64)),
                None => NodeView::Null,
            },
        ),
        ColumnView::I16(ov) => Ok(
            match ov {
                Some(n) => NodeView::Number(NumberView::Int(n as i64)),
                None => NodeView::Null,
            },
        ),
        ColumnView::I32(ov) => Ok(
            match ov {
                Some(n) => NodeView::Number(NumberView::Int(n as i64)),
                None => NodeView::Null,
            },
        ),
        ColumnView::I64(ov) => Ok(
            match ov {
                Some(n) => NodeView::Number(NumberView::Int(n)),
                None => NodeView::Null,
            },
        ),
        ColumnView::F32(ov) => Ok(float_node_model(ov)),
        ColumnView::F64(ov) => Ok(float_node_model(ov)),
        ColumnView::Bit(ov) => Ok(
            match ov {
                Some(b) => NodeView::Bool(b),
                None => NodeView::Null,
            },
        ),
        ColumnView::Text(ov) => Ok(
            match ov {
                Some(s) => NodeView::Text(s),
                None => NodeView::Text(Seq::<char>::empty()),
            },
        ),
        ColumnView::Guid(ov) => Ok(
            match ov {
                Some(b) => NodeView::Text(guid_text(b)),
                None => NodeView::Null,
            },
        ),
        ColumnView::Binary(ov) => Ok(
            match ov {
                Some(b) => NodeView::Text(base64_text(b)),
                None => NodeView::Null,
            },
        ),
        ColumnView::Numeric(ov) => Ok(
            match ov {
                Some(n) => NodeView::Text(numeric_text(n.value, n.scale)),
                None => NodeView::Null,
            },
        ),
        ColumnView::Xml(ov) => Ok(
            match ov {
                Some(s) => NodeView::Text(s),
                None => NodeView::Text(Seq::<char>::empty()),
            },
        ),
        ColumnView::DateTime(ov) => Ok(
            match ov {
                Some(dt) => NodeView::Text(datetime_text(dt.days as int, dt.seconds_fragments as nat)),
                None => NodeView::Null,
            },
        ),
        ColumnView::SmallDateTime(ov) => Ok(
            match ov {
                Some(dt) => NodeView::Text(smalldatetime_text(dt.days, dt.seconds_fragments)),
                None => NodeView::Null,
            },
        ),
        ColumnView::Time(ov) => Ok(
            match ov {
                Some(t) => time_node_model(t),
                None => NodeView::Null,
            },
        ),
        ColumnView::Date(ov) => Ok(
            match ov {
                Some(d) => date_node_model(d),
                None => NodeView::Null,
            },
        ),
        ColumnView::DateTime2(ov) => Ok(
            match ov {
                Some(d) => datetime2_node_model(d),
                None => NodeView::Null,
            },
        ),
        ColumnView::DateTimeOffset(ov) => Ok(
            match ov {
                Some(d) => datetimeoffset_node_model(d),
                None => NodeView::Null,
            },
        ),
        ColumnView::Unsupported(rendering) => Err(
            NormalizeErrorView::UnsupportedColumnKind(unsupported_message(rendering)),
        ),
    }
}

/// The node a floating-point column becomes: a numeric node for a finite
/// value, its rendering as text for a non-finite one, null when absent.
pub open spec fn float_node_model(ov: Option<FloatView>) -> NodeView {
    match ov {
        Some(FloatView::Finite(t)) => NodeView::Number(NumberView::Float(t)),
        Some(FloatView::NonFinite(t)) => NodeView::Text(t),
        None => NodeView::Null,
    }
}

/// The model of a produced result.
pub open spec fn result_model(r: Result<DocumentNode, NormalizeError>) -> Result<
    NodeView,
    NormalizeErrorView,
> {
    match r {
        Ok(n) => Ok(n@),
        Err(e) => Err(e@),
    }
}

/// The node a present floating-point value becomes.
fn float_node(f: &FloatValue) -> (n: DocumentNode)
    ensures
        n@ == float_node_model(Some(f@)),
{
    match f {
        FloatValue::Finite(t) => DocumentNode::Number(NumberValue::Float(t.clone())),
        FloatValue::NonFinite(t) => DocumentNode::Text(t.clone()),
    }
}

/// Maps one typed column value to one document node. Total but for the one
/// hard failure: a wire kind outside the enumerated set. An absent value
/// becomes an empty text node for the textual kinds and a null node for all
/// others; an out-of-range value of a delegated temporal kind becomes a
/// null node.
pub fn normalize(v: &ColumnValue) -> (r: Result<DocumentNode, NormalizeError>)
    requires
        column_wf(v@),
    ensures
        result_model(r) == normalize_model(v@),
{
    match v {
        ColumnValue::U8(ov) => Ok(
            match ov {
                Some(n) => DocumentNode::Number(NumberValue::UInt(*n as u64)),
                None => DocumentNode::Null,
            },
        ),
        ColumnValue::I16(ov) => Ok(
            match ov {
                Some(n) => DocumentNode::Number(NumberValue::Int(*n as i64)),
                None => DocumentNode::Null,
            },
        ),
        ColumnValue::I32(ov) => Ok(
            match ov {
                Some(n) => DocumentNode::Number(NumberValue::Int(*n as i64)),
                None => DocumentNode::Null,
            },
        ),
        ColumnValue::I64(ov) => Ok(
            match ov {
                Some(n) => DocumentNode::Number(NumberValue::Int(*n)),
                None => DocumentNode::Null,
            },
        ),
        ColumnValue::F32(ov) => Ok(
            match ov {
                Some(f) => float_node(f),
                None => DocumentNode::Null,
            },
        ),
        ColumnValue::F64(ov) => Ok(
            match ov {
                Some(f) => float_node(f),
                None => DocumentNode::Null,
            },
        ),
        ColumnValue::Bit(ov) => Ok(
            match ov {
                Some(b) => DocumentNode::Bool(*b),
                None => DocumentNode::Null,
            },
        ),
        ColumnValue::Text(ov) => Ok(
            match ov {
                Some(s) => DocumentNode::Text(s.clone()),
                None => DocumentNode::Text(String::new()),
            },
        ),
        ColumnValue::Guid(ov) => Ok(
            match ov {
                Some(b) => DocumentNode::Text(guid_string(b)),
                None => DocumentNode::Null,
            },
        ),
        ColumnValue::Binary(ov) => Ok(
            match ov {
                Some(b) => DocumentNode::Text(base64_string(b)),
                None => DocumentNode::Null,
            },
        ),
        ColumnValue::Numeric(ov) => Ok(
            match ov {
                Some(n) => DocumentNode::Text(numeric_string(n.value, n.scale)),
                None => DocumentNode::Null,
            },
        ),
        ColumnValue::Xml(ov) => Ok(
            match ov {
                Some(s) => DocumentNode::Text(s.clone()),
                None => DocumentNode::Text(String::new()),
            },
        ),
        ColumnValue::DateTime(ov) => Ok(
            match ov {
                Some(dt) => DocumentNode::Text(datetime_node_text(dt)),
                None => DocumentNode::Null,
            },
        ),
        ColumnValue::SmallDateTime(ov) => Ok(
            match ov {
                Some(dt) => smalldatetime_node(dt),
                None => DocumentNode::Null,
            },
        ),
        ColumnValue::Time(ov) => Ok(
            match ov {
                Some(t) => time_node(t),
                None => DocumentNode::Null,
            },
        ),
        ColumnValue::Date(ov) => Ok(
            match ov {
                Some(d) => date_node(d),
                None => DocumentNode::Null,
            },
        ),
        ColumnValue::DateTime2(ov) => Ok(
            match ov {
                Some(d) => datetime2_node(d),
                None => DocumentNode::Null,
            },
        ),
        ColumnValue::DateTimeOffset(ov) => Ok(
            match ov {
                Some(d) => datetimeoffset_node(d),
                None => DocumentNode::Null,
            },
        ),
        ColumnValue::Unsupported(rendering) => {
            let mut msg = "unsupported column kind: ".to_owned();
            msg.append(rendering.as_str());
            Err(NormalizeError::UnsupportedColumnKind(msg))
        },
    }
}

/// An absent value of a supported kind becomes exactly the documented node:
/// an empty text node for the textual kinds, a null node for all others.
pub proof fn lemma_absent_nodes(v: ColumnView)
    ensures
        v matches ColumnView::Text(None) ==> normalize_model(v) == Ok::<_, NormalizeErrorView>(
            NodeView::Text(Seq::<char>::empty()),
        ),
        v matches ColumnView::Xml(None) ==> normalize_model(v) == Ok::<_, NormalizeErrorView>(
            NodeView::Text(Seq::<char>::empty()),
        ),
        (v matches ColumnView::U8(None) || v matches ColumnView::I16(None) || v
            matches ColumnView::I32(None) || v matches ColumnView::I64(None) || v
            matches ColumnView::F32(None) || v matches ColumnView::F64(None) || v
            matches ColumnView::Bit(None) || v matches ColumnView::Guid(None) || v
            matches ColumnView::Binary(None) || v matches ColumnView::Numeric(None) || v
            matches ColumnView::DateTime(None) || v matches ColumnView::SmallDateTime(None) || v
            matches ColumnView::Time(None) || v matches ColumnView::Date(None) || v
            matches ColumnView::DateTime2(None) || v matches ColumnView::DateTimeOffset(None))
            ==> normalize_model(v) == Ok::<_, NormalizeErrorView>(NodeView::Null),
{
}

/// A present integer, boolean, textual or pre-rendered floating-point value
/// passes through normalization unchanged: the node renders exactly the
/// original value.
pub proof fn lemma_present_value_round_trip(v: ColumnView)
    ensures
        forall|n: u8|
            v == ColumnView::U8(Some(n)) ==> normalize_model(v) == Ok::<_, NormalizeErrorView>(
                NodeView::Number(NumberView::UInt(n as u64)),
            ),
        forall|n: i16|
            v == ColumnView::I16(Some(n)) ==> normalize_model(v) == Ok::<_, NormalizeErrorView>(
                NodeView::Number(NumberView::Int(n as i64)),
            ),
        forall|n: i32|
            v == ColumnView::I32(Some(n)) ==> normalize_model(v) == Ok::<_, NormalizeErrorView>(
                NodeView::Number(NumberView::Int(n as i64)),
            ),
        forall|n: i64|
            v == ColumnView::I64(Some(n)) ==> normalize_model(v) == Ok::<_, NormalizeErrorView>(
                NodeView::Number(NumberView::Int(n)),
            ),
        forall|b: bool|
            v == ColumnView::Bit(Some(b)) ==> normalize_model(v) == Ok::<_, NormalizeErrorView>(
                NodeView::Bool(b),
            ),
        forall|s: Seq<char>|
            v == ColumnView::Text(Some(s)) ==> normalize_model(v) == Ok::<_, NormalizeErrorView>(
                NodeView::Text(s),
            ),
        forall|t: Seq<char>|
            v == ColumnView::F64(Some(FloatView::Finite(t))) ==> normalize_model(v) == Ok::<
                _,
                NormalizeErrorView,
            >(NodeView::Number(NumberView::Float(t))),
        forall|t: Seq<char>|
            v == ColumnView::F64(Some(FloatView::NonFinite(t))) ==> normalize_model(v) == Ok::<
                _,
                NormalizeErrorView,
            >(NodeView::Text(t)),
{
}

/// Normalization fails exactly on the wire kinds outside the enumerated
/// set, and then always with the unsupported-kind failure carrying the
/// value's rendering; no column is ever dropped silently.
pub proof fn lemma_unsupported_kind_fails(v: ColumnView)
    ensures
        (normalize_model(v) is Err) <==> (v matches ColumnView::Unsupported(_)),
        forall|rendering: Seq<char>|
            v == ColumnView::Unsupported(rendering) ==> normalize_model(v) == Err::<NodeView, _>(
                NormalizeErrorView::UnsupportedColumnKind(unsupported_message(rendering)),
            ),
{
}

/// An out-of-range value of a delegated temporal kind degrades to a null
/// node instead of failing the row.
pub proof fn lemma_out_of_range_degrades(v: ColumnView)
    ensures
        forall|w: crate::column::TimeValue|
            v == ColumnView::Time(Some(w)) && !time_in_range(w) ==> normalize_model(v) == Ok::<
                _,
                NormalizeErrorView,
            >(NodeView::Null),
        forall|w: crate::column::DateValue|
            v == ColumnView::Date(Some(w)) && !date_days_in_range(w.days) ==> normalize_model(v)
                == Ok::<_, NormalizeErrorView>(NodeView::Null),
        forall|w: crate::column::DateTime2Value|
            v == ColumnView::DateTime2(Some(w)) && !datetime2_in_range(w) ==> normalize_model(v)
                == Ok::<_, NormalizeErrorView>(NodeView::Null),
        forall|w: crate::column::DateTimeOffsetValue|
            v == ColumnView::DateTimeOffset(Some(w)) && !datetimeoffset_in_range(w)
                ==> normalize_model(v) == Ok::<_, NormalizeErrorView>(NodeView::Null),
{
}

} // verus!
