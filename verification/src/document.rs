//! The ordered document one row becomes, and typed field extraction from it.

use vstd::prelude::*;
use vstd::string::*;

use crate::column::{column_wf, ColumnValue, ColumnView};
use crate::node::{DocumentNode, NodeView, NumberView};
use crate::normalize::{normalize, normalize_model, NormalizeError, NormalizeErrorView};

verus! {

/// Model of a decode failure.
pub enum DecodeErrorView {
    MissingField(Seq<char>),
    IncompatibleType(Seq<char>),
}

/// Why a document could not be mapped onto a record field; carries the
/// field's name.
#[derive(Debug, Clone, PartialEq)]
pub enum DecodeError {
    /// No document key matches the required field.
    MissingField(String),
    /// The document node under the key cannot inhabit the field's type.
    IncompatibleType(String),
}

impl View for DecodeError {
    type V = DecodeErrorView;

    open spec fn view(&self) -> DecodeErrorView {
        match self {
            DecodeError::MissingField(s) => DecodeErrorView::MissingField(s@),
            DecodeError::IncompatibleType(s) => DecodeErrorView::IncompatibleType(s@),
        }
    }
}

/// Inserting into the ordered document: a key already present keeps its
/// position and takes the new node (the last write wins), a new key is
/// appended.
pub open spec fn doc_insert(
    s: Seq<(Seq<char>, NodeView)>,
    k: Seq<char>,
    n: NodeView,
) -> Seq<(Seq<char>, NodeView)>
    decreases s.len(),
{
    if s.len() == 0 {
        seq![(k, n)]
    } else if s.first().0 == k {
        seq![(k, n)] + s.drop_first()
    } else {
        seq![s.first()] + doc_insert(s.drop_first(), k, n)
    }
}

/// Looking a key up in the ordered document.
pub open spec fn doc_lookup(s: Seq<(Seq<char>, NodeView)>, k: Seq<char>) -> Option<NodeView>
    decreases s.len(),
{
    if s.len() == 0 {
        None
    } else if s.first().0 == k {
        Some(s.first().1)
    } else {
        doc_lookup(s.drop_first(), k)
    }
}

/// When no key of the first `i` entries matches, inserting skips them.
proof fn lemma_doc_insert_skip(s: Seq<(Seq<char>, NodeView)>, k: Seq<char>, n: NodeView, i: int)
    requires
        0 <= i <= s.len(),
        forall|j: int| 0 <= j < i ==> s[j].0 != k,
    ensures
        doc_insert(s, k, n) == s.subrange(0, i) + doc_insert(s.subrange(i, s.len() as int), k, n),
    decreases i,
{
    if i == 0 {
        assert(s.subrange(0, s.len() as int) =~= s);
        assert(doc_insert(s, k, n) =~= s.subrange(0, 0) + doc_insert(
            s.subrange(0, s.len() as int),
            k,
            n,
        ));
    } else {
        lemma_doc_insert_skip(s.drop_first(), k, n, i - 1);
        assert(s.drop_first().subrange(0, i - 1) =~= s.subrange(1, i));
        assert(s.drop_first().subrange(i - 1, s.drop_first().len() as int) =~= s.subrange(
            i,
            s.len() as int,
        ));
        assert(doc_insert(s, k, n) =~= s.subrange(0, i) + doc_insert(
            s.subrange(i, s.len() as int),
            k,
            n,
        ));
    }
}

/// When no key of the first `i` entries matches, lookup skips them.
proof fn lemma_doc_lookup_skip(s: Seq<(Seq<char>, NodeView)>, k: Seq<char>, i: int)
    requires
        0 <= i <= s.len(),
        forall|j: int| 0 <= j < i ==> s[j].0 != k,
    ensures
        doc_lookup(s, k) == doc_lookup(s.subrange(i, s.len() as int), k),
    decreases i,
{
    if i == 0 {
        assert(s.subrange(0, s.len() as int) =~= s);
    } else {
        lemma_doc_lookup_skip(s.drop_first(), k, i - 1);
        assert(s.drop_first().subrange(i - 1, s.drop_first().len() as int) =~= s.subrange(
            i,
            s.len() as int,
        ));
    }
}

/// Folding a row's columns into a document, starting from `doc`: each
/// column is normalized and inserted in order; the first normalization
/// failure fails the whole row.
pub open spec fn assemble_from(
    doc: Seq<(Seq<char>, NodeView)>,
    cols: Seq<(Seq<char>, ColumnView)>,
) -> Result<Seq<(Seq<char>, NodeView)>, NormalizeErrorView>
    decreases cols.len(),
{
    if cols.len() == 0 {
        Ok(doc)
    } else {
        match normalize_model(cols.first().1) {
            Err(e) => Err(e),
            Ok(n) => assemble_from(doc_insert(doc, cols.first().0, n), cols.drop_first()),
        }
    }
}

/// The document (or failure) a whole row converts to.
pub open spec fn row_model(cols: Seq<(Seq<char>, ColumnView)>) -> Result<
    Seq<(Seq<char>, NodeView)>,
    NormalizeErrorView,
> {
    assemble_from(Seq::<(Seq<char>, NodeView)>::empty(), cols)
}

/// The view of a row's column list.
pub open spec fn columns_view(cols: Seq<(String, ColumnValue)>) -> Seq<(Seq<char>, ColumnView)> {
    cols.map_values(|p: (String, ColumnValue)| (p.0@, p.1@))
}

/// No name is carried by two entries.
pub open spec fn keys_distinct(s: Seq<(Seq<char>, NodeView)>) -> bool {
    forall|i: int, j: int| 0 <= i < j < s.len() ==> s[i].0 != s[j].0
}

/// The last write under a name wins: after an insert, lookup of that name
/// yields the inserted node, and every other name is untouched. The insert
/// keeps names unique.
pub proof fn lemma_insert_lookup(s: Seq<(Seq<char>, NodeView)>, k: Seq<char>, n: NodeView)
    ensures
        doc_lookup(doc_insert(s, k, n), k) == Some(n),
        forall|k2: Seq<char>| k2 != k ==> doc_lookup(doc_insert(s, k, n), k2) == doc_lookup(s, k2),
        keys_distinct(s) ==> keys_distinct(doc_insert(s, k, n)),
    decreases s.len(),
{
    let t = doc_insert(s, k, n);
    if s.len() == 0 {
        assert forall|i: int, j: int| 0 <= i < j < t.len() implies t[i].0 != t[j].0 by {}
        assert forall|k2: Seq<char>| k2 != k implies doc_lookup(t, k2) == doc_lookup(s, k2) by {
            assert(t.drop_first() =~= Seq::<(Seq<char>, NodeView)>::empty());
            assert(doc_lookup(t, k2) == doc_lookup(t.drop_first(), k2));
        }
    } else if s.first().0 == k {
        assert(t == seq![(k, n)] + s.drop_first());
        assert(t.drop_first() =~= s.drop_first());
        assert forall|k2: Seq<char>| k2 != k implies doc_lookup(t, k2) == doc_lookup(s, k2) by {
            assert(t.first().0 == k);
            assert(s.first().0 == k);
        }
        if keys_distinct(s) {
            assert forall|i: int, j: int| 0 <= i < j < t.len() implies t[i].0 != t[j].0 by {
                assert(t[j] == s[j]);
                if i > 0 {
                    assert(t[i] == s[i]);
                } else {
                    assert(t[0].0 == s[0].0);
                }
            }
        }
    } else {
        lemma_insert_lookup(s.drop_first(), k, n);
        assert(t == seq![s.first()] + doc_insert(s.drop_first(), k, n));
        assert(t.drop_first() =~= doc_insert(s.drop_first(), k, n));
        assert(doc_lookup(t, k) == Some(n));
        assert forall|k2: Seq<char>| k2 != k implies doc_lookup(t, k2) == doc_lookup(s, k2) by {
            assert(t.first() == s.first());
            if s.first().0 == k2 {
                assert(doc_lookup(t, k2) == Some(t.first().1));
                assert(doc_lookup(s, k2) == Some(s.first().1));
            } else {
                assert(doc_lookup(t, k2) == doc_lookup(t.drop_first(), k2));
                assert(doc_lookup(doc_insert(s.drop_first(), k, n), k2) == doc_lookup(
                    s.drop_first(),
                    k2,
                ));
                assert(doc_lookup(s, k2) == doc_lookup(s.drop_first(), k2));
            }
        }
        if keys_distinct(s) {
            assert(keys_distinct(s.drop_first())) by {
                assert forall|i: int, j: int|
                    0 <= i < j < s.drop_first().len() implies s.drop_first()[i].0 != s.drop_first(
                )[j].0 by {
                    assert(s.drop_first()[i] == s[i + 1]);
                    assert(s.drop_first()[j] == s[j + 1]);
                }
            }
            assert forall|i: int, j: int| 0 <= i < j < t.len() implies t[i].0 != t[j].0 by {
                if i > 0 {
                    assert(t[i] == t.drop_first()[i - 1]);
                    assert(t[j] == t.drop_first()[j - 1]);
                } else {
                    assert(t[0] == s[0]);
                    assert(t[j] == t.drop_first()[j - 1]);
                    lemma_lookup_some_of_key(t.drop_first(), j - 1);
                    if t[0].0 == t[j].0 {
                        // The first entry's name would then be found behind it,
                        // though it is distinct from every later name and from
                        // the inserted one.
                        assert(doc_lookup(t.drop_first(), t[0].0) is Some);
                        assert(doc_lookup(s.drop_first(), t[0].0) is Some);
                        assert forall|i2: int|
                            0 <= i2 < s.drop_first().len() implies s.drop_first()[i2].0 != s[0].0 by {
                            assert(s.drop_first()[i2] == s[i2 + 1]);
                        }
                        lemma_lookup_none_when_absent(s.drop_first(), s[0].0);
                    }
                }
            }
        }
    }
}

/// A key stored at some index is found by lookup.
proof fn lemma_lookup_some_of_key(s: Seq<(Seq<char>, NodeView)>, i: int)
    requires
        0 <= i < s.len(),
    ensures
        doc_lookup(s, s[i].0) is Some,
    decreases i,
{
    if s.first().0 != s[i].0 {
        assert(s.drop_first()[i - 1] == s[i]);
        lemma_lookup_some_of_key(s.drop_first(), i - 1);
    }
}

/// A key that no entry carries is not found by lookup.
proof fn lemma_lookup_none_when_absent(s: Seq<(Seq<char>, NodeView)>, k: Seq<char>)
    requires
        forall|i: int| 0 <= i < s.len() ==> s[i].0 != k,
    ensures
        doc_lookup(s, k) is None,
    decreases s.len(),
{
    if s.len() > 0 {
        assert forall|i: int| 0 <= i < s.drop_first().len() implies s.drop_first()[i].0 != k by {
            assert(s.drop_first()[i] == s[i + 1]);
        }
        lemma_lookup_none_when_absent(s.drop_first(), k);
    }
}

/// Folding preserves what `lemma_insert_lookup` gives per step: names stay
/// unique, and a name is present exactly when the starting document held it
/// or some remaining column carries it.
proof fn lemma_assemble_keys(
    doc: Seq<(Seq<char>, NodeView)>,
    cols: Seq<(Seq<char>, ColumnView)>,
)
    requires
        keys_distinct(doc),
        assemble_from(doc, cols) is Ok,
    ensures
        keys_distinct(assemble_from(doc, cols)->Ok_0),
        forall|k: Seq<char>|
            (#[trigger] doc_lookup(assemble_from(doc, cols)->Ok_0, k) is Some) <==> ((doc_lookup(
                doc,
                k,
            ) is Some) || exists|i: int| 0 <= i < cols.len() && cols[i].0 == k),
    decreases cols.len(),
{
    if cols.len() > 0 {
        let n = normalize_model(cols.first().1)->Ok_0;
        let doc1 = doc_insert(doc, cols.first().0, n);
        lemma_insert_lookup(doc, cols.first().0, n);
        lemma_assemble_keys(doc1, cols.drop_first());
        let d = assemble_from(doc, cols)->Ok_0;
        assert forall|k: Seq<char>|
            (#[trigger] doc_lookup(d, k) is Some) <==> ((doc_lookup(doc, k) is Some) || exists|
                i: int,
            | 0 <= i < cols.len() && cols[i].0 == k) by {
            if doc_lookup(d, k) is Some {
                if doc_lookup(doc1, k) is Some && !(doc_lookup(doc, k) is Some) {
                    if k == cols.first().0 {
                        assert(cols[0].0 == k);
                    }
                }
                if exists|i: int| 0 <= i < cols.drop_first().len() && cols.drop_first()[i].0 == k {
                    let i = choose|i: int|
                        0 <= i < cols.drop_first().len() && cols.drop_first()[i].0 == k;
                    assert(cols[i + 1].0 == k);
                }
            } else {
                if exists|i: int| 0 <= i < cols.len() && cols[i].0 == k {
                    let i = choose|i: int| 0 <= i < cols.len() && cols[i].0 == k;
                    if i == 0 {
                        assert(doc_lookup(doc1, k) is Some);
                    } else {
                        assert(cols.drop_first()[i - 1].0 == k);
                    }
                }
            }
        }
    }
}

/// Every column of a successfully converted row produces exactly one
/// document entry: its name is present (an absent value becomes an explicit
/// node, not an omitted name), and no name is present twice.
pub proof fn lemma_row_document_keys(cols: Seq<(Seq<char>, ColumnView)>)
    requires
        row_model(cols) is Ok,
    ensures
        keys_distinct(row_model(cols)->Ok_0),
        forall|k: Seq<char>|
            (#[trigger] doc_lookup(row_model(cols)->Ok_0, k) is Some) <==> exists|i: int|
                0 <= i < cols.len() && cols[i].0 == k,
{
    lemma_assemble_keys(Seq::<(Seq<char>, NodeView)>::empty(), cols);
}

/// An ordered mapping from column name to document node; duplicate names
/// keep their first position, the last written node winning.
#[derive(Debug, Clone, PartialEq)]
pub struct Document {
    entries: Vec<(String, DocumentNode)>,
}

impl View for Document {
    type V = Seq<(Seq<char>, NodeView)>;

    closed spec fn view(&self) -> Seq<(Seq<char>, NodeView)> {
        self.entries@.map_values(|p: (String, DocumentNode)| (p.0@, p.1@))
    }
}

impl Document {
    /// The empty document.
    pub fn new() -> (r: Document)
        ensures
            r@ == Seq::<(Seq<char>, NodeView)>::empty(),
    {
        let d = Document { entries: Vec::new() };
        proof {
            assert(d@ =~= Seq::<(Seq<char>, NodeView)>::empty());
        }
        d
    }

    /// How many entries the document holds.
    pub fn len(&self) -> (r: usize)
        ensures
            r == self@.len(),
    {
        self.entries.len()
    }

    /// Writes one node under a name; an existing entry of that name is
    /// overwritten in place, a new name is appended.
    pub fn insert(&mut self, name: String, node: DocumentNode)
        ensures
            final(self)@ == doc_insert(old(self)@, name@, node@),
    {
        let n = self.entries.len();
        let mut i: usize = 0;
        while i < n
            invariant
                n == self.entries.len(),
                0 <= i <= n,
                self == old(self),
                forall|j: int| 0 <= j < i ==> self@[j].0 != name@,
            decreases n - i,
        {
            if self.entries[i].0 == name {
                proof {
                    lemma_doc_insert_skip(self@, name@, node@, i as int);
                }
                self.entries.set(i, (name, node));
                proof {
                    assert(final(self)@ =~= doc_insert(old(self)@, name@, node@));
                }
                return ;
            }
            i = i + 1;
        }
        proof {
            lemma_doc_insert_skip(self@, name@, node@, n as int);
        }
        self.entries.push((name, node));
        proof {
            assert(final(self)@ =~= doc_insert(old(self)@, name@, node@));
        }
    }

    /// The document's entries, in order.
    pub fn fields(&self) -> (r: &Vec<(String, DocumentNode)>)
        ensures
            r@.map_values(|p: (String, DocumentNode)| (p.0@, p.1@)) == self@,
    {
        &self.entries
    }

    /// The node stored under a name, if any.
    pub fn get_node(&self, name: &str) -> (r: Option<&DocumentNode>)
        ensures
            match r {
                Some(node) => doc_lookup(self@, name@) == Some(node@),
                None => doc_lookup(self@, name@) is None,
            },
    {
        let key = name.to_owned();
        let n = self.entries.len();
        let mut i: usize = 0;
        while i < n
            invariant
                n == self.entries.len(),
                0 <= i <= n,
                key@ == name@,
                forall|j: int| 0 <= j < i ==> self@[j].0 != name@,
            decreases n - i,
        {
            if self.entries[i].0 == key {
                proof {
                    lemma_doc_lookup_skip(self@, name@, i as int);
                }
                return Some(&self.entries[i].1);
            }
            i = i + 1;
        }
        proof {
            lemma_doc_lookup_skip(self@, name@, n as int);
        }
        None
    }
}

/// Builds the document of a whole row: normalizes each column in order and
/// inserts the node under the column's name. The first column whose kind is
/// unsupported fails the row.
pub fn document_from_row(cols: &Vec<(String, ColumnValue)>) -> (r: Result<Document, NormalizeError>)
    requires
        forall|i: int| 0 <= i < cols@.len() ==> column_wf(#[trigger] cols@[i].1@),
    ensures
        match r {
            Ok(d) => row_model(columns_view(cols@)) == Ok::<_, NormalizeErrorView>(d@),
            Err(e) => row_model(columns_view(cols@)) == Err::<Seq<(Seq<char>, NodeView)>, _>(e@),
        },
{
    let ghost cv = columns_view(cols@);
    let n = cols.len();
    let mut doc = Document::new();
    let mut i: usize = 0;
    proof {
        assert(cv.subrange(0, cv.len() as int) =~= cv);
    }
    while i < n
        invariant
            n == cols@.len(),
            0 <= i <= n,
            cv == columns_view(cols@),
            forall|j: int| 0 <= j < cols@.len() ==> column_wf(#[trigger] cols@[j].1@),
            row_model(cv) == assemble_from(doc@, cv.subrange(i as int, cv.len() as int)),
        decreases n - i,
    {
        let node = match normalize(&cols[i].1) {
            Ok(node) => node,
            Err(e) => {
                proof {
                    assert(cv.subrange(i as int, cv.len() as int).first() == cv[i as int]);
                }
                return Err(e);
            },
        };
        proof {
            assert(cv.subrange(i as int, cv.len() as int).first() == cv[i as int]);
            assert(cv.subrange(i as int, cv.len() as int).drop_first() =~= cv.subrange(
                i as int + 1,
                cv.len() as int,
            ));
        }
        doc.insert(cols[i].0.clone(), node);
        i = i + 1;
    }
    proof {
        assert(cv.subrange(n as int, cv.len() as int) =~= Seq::<(Seq<char>, ColumnView)>::empty());
    }
    Ok(doc)
}

/// The signed 64-bit integer a document field decodes to.
pub open spec fn i64_extract(ov: Option<NodeView>, field: Seq<char>) -> Result<
    i64,
    DecodeErrorView,
> {
    match ov {
        None => Err(DecodeErrorView::MissingField(field)),
        Some(NodeView::Number(NumberView::Int(i))) => Ok(i),
        Some(NodeView::Number(NumberView::UInt(u))) => if u <= i64::MAX as u64 {
            Ok(u as i64)
        } else {
            Err(DecodeErrorView::IncompatibleType(field))
        },
        Some(_) => Err(DecodeErrorView::IncompatibleType(field)),
    }
}

/// The signed 32-bit integer a document field decodes to: an integer node
/// narrowed, when it fits the width.
pub open spec fn i32_extract(ov: Option<NodeView>, field: Seq<char>) -> Result<
    i32,
    DecodeErrorView,
> {
    match i64_extract(ov, field) {
        Err(e) => Err(e),
        Ok(i) => if i32::MIN as i64 <= i <= i32::MAX as i64 {
            Ok(i as i32)
        } else {
            Err(DecodeErrorView::IncompatibleType(field))
        },
    }
}

/// The boolean a document field decodes to.
pub open spec fn bool_extract(ov: Option<NodeView>, field: Seq<char>) -> Result<
    bool,
    DecodeErrorView,
> {
    match ov {
        None => Err(DecodeErrorView::MissingField(field)),
        Some(NodeView::Bool(b)) => Ok(b),
        Some(_) => Err(DecodeErrorView::IncompatibleType(field)),
    }
}

/// The text a document field decodes to.
pub open spec fn text_extract(ov: Option<NodeView>, field: Seq<char>) -> Result<
    Seq<char>,
    DecodeErrorView,
> {
    match ov {
        None => Err(DecodeErrorView::MissingField(field)),
        Some(NodeView::Text(s)) => Ok(s),
        Some(_) => Err(DecodeErrorView::IncompatibleType(field)),
    }
}

impl Document {
    /// Decodes the field `name` as a signed 64-bit integer.
    pub fn get_i64(&self, name: &str) -> (r: Result<i64, DecodeError>)
        ensures
            match r {
                Ok(v) => i64_extract(doc_lookup(self@, name@), name@) == Ok::<_, DecodeErrorView>(
                    v,
                ),
                Err(e) => i64_extract(doc_lookup(self@, name@), name@) == Err::<i64, _>(e@),
            },
    {
        match self.get_node(name) {
            None => Err(DecodeError::MissingField(name.to_owned())),
            Some(DocumentNode::Number(crate::node::NumberValue::Int(i))) => Ok(*i),
            Some(DocumentNode::Number(crate::node::NumberValue::UInt(u))) => {
                if *u <= i64::MAX as u64 {
                    Ok(*u as i64)
                } else {
                    Err(DecodeError::IncompatibleType(name.to_owned()))
                }
            },
            Some(_) => Err(DecodeError::IncompatibleType(name.to_owned())),
        }
    }

    /// Decodes the field `name` as a signed 32-bit integer.
    pub fn get_i32(&self, name: &str) -> (r: Result<i32, DecodeError>)
        ensures
            match r {
                Ok(v) => i32_extract(doc_lookup(self@, name@), name@) == Ok::<_, DecodeErrorView>(
                    v,
                ),
                Err(e) => i32_extract(doc_lookup(self@, name@), name@) == Err::<i32, _>(e@),
            },
    {
        match self.get_i64(name) {
            Err(e) => Err(e),
            Ok(i) => {
                if i32::MIN as i64 <= i && i <= i32::MAX as i64 {
                    Ok(i as i32)
                } else {
                    Err(DecodeError::IncompatibleType(name.to_owned()))
                }
            },
        }
    }

    /// Decodes the field `name` as a boolean.
    pub fn get_bool(&self, name: &str) -> (r: Result<bool, DecodeError>)
        ensures
            match r {
                Ok(v) => bool_extract(doc_lookup(self@, name@), name@) == Ok::<_, DecodeErrorView>(
                    v,
                ),
                Err(e) => bool_extract(doc_lookup(self@, name@), name@) == Err::<bool, _>(e@),
            },
    {
        match self.get_node(name) {
            None => Err(DecodeError::MissingField(name.to_owned())),
            Some(DocumentNode::Bool(b)) => Ok(*b),
            Some(_) => Err(DecodeError::IncompatibleType(name.to_owned())),
        }
    }

    /// Decodes the field `name` as text.
    pub fn get_text(&self, name: &str) -> (r: Result<String, DecodeError>)
        ensures
            match r {
                Ok(v) => text_extract(doc_lookup(self@, name@), name@) == Ok::<_, DecodeErrorView>(
                    v@,
                ),
                Err(e) => text_extract(doc_lookup(self@, name@), name@) == Err::<Seq<char>, _>(e@),
            },
    {
        match self.get_node(name) {
            None => Err(DecodeError::MissingField(name.to_owned())),
            Some(DocumentNode::Text(s)) => Ok(s.clone()),
            Some(_) => Err(DecodeError::IncompatibleType(name.to_owned())),
        }
    }
}

} // verus!
