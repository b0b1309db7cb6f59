//! The structured document a manifest file parses into.
//!
//! A manifest is a generic structured-data tree. The compiler only ever
//! reads it to a fixed depth: a top-level mapping, whose field values are
//! scalars, sequences of scalars, or sequences of mappings of scalars
//! (argument blocks). The types here represent exactly those depths;
//! structure nested deeper is kept only as its kind, which is all the
//! extraction rules need to classify a field as well- or ill-shaped.

use vstd::prelude::*;

verus! {

/// A scalar leaf of a parsed document. Numeric scalars carry no payload:
/// no manifest field is numeric, so their value is never read.
pub enum Scalar {
    Null,
    Bool(bool),
    Str(String),
    Num,
}

/// The value of one key inside an argument-block mapping.
pub enum ArgVal {
    Scalar(Scalar),
    Sequence,
    Mapping,
}

/// One element of a top-level sequence field.
pub enum Elem {
    Scalar(Scalar),
    Sequence,
    Mapping(Vec<(String, ArgVal)>),
}

/// The value of one top-level field.
pub enum FieldVal {
    Scalar(Scalar),
    Sequence(Vec<Elem>),
    Mapping,
}

/// A whole parsed document: a top-level mapping, or anything else.
pub enum Document {
    Mapping(Vec<(String, FieldVal)>),
    Other,
}

/// Mathematical form of `Scalar`.
pub enum ScalarV {
    Null,
    Bool(bool),
    Str(Seq<char>),
    Num,
}

/// Mathematical form of `ArgVal`.
pub enum ArgValV {
    Scalar(ScalarV),
    Sequence,
    Mapping,
}

/// Mathematical form of `Elem`.
pub enum ElemV {
    Scalar(ScalarV),
    Sequence,
    Mapping(Seq<(Seq<char>, ArgValV)>),
}

/// Mathematical form of `FieldVal`.
pub enum FieldValV {
    Scalar(ScalarV),
    Sequence(Seq<ElemV>),
    Mapping,
}

/// Mathematical form of `Document`.
pub enum DocumentV {
    Mapping(Seq<(Seq<char>, FieldValV)>),
    Other,
}

impl DeepView for Scalar {
    type V = ScalarV;

    open spec fn deep_view(&self) -> ScalarV {
        match self {
            Scalar::Null => ScalarV::Null,
            Scalar::Bool(b) => ScalarV::Bool(*b),
            Scalar::Str(s) => ScalarV::Str(s@),
            Scalar::Num => ScalarV::Num,
        }
    }
}

impl DeepView for ArgVal {
    type V = ArgValV;

    open spec fn deep_view(&self) -> ArgValV {
        match self {
            ArgVal::Scalar(s) => ArgValV::Scalar(s.deep_view()),
            ArgVal::Sequence => ArgValV::Sequence,
            ArgVal::Mapping => ArgValV::Mapping,
        }
    }
}

impl DeepView for Elem {
    type V = ElemV;

    open spec fn deep_view(&self) -> ElemV {
        match self {
            Elem::Scalar(s) => ElemV::Scalar(s.deep_view()),
            Elem::Sequence => ElemV::Sequence,
            Elem::Mapping(m) => ElemV::Mapping(m.deep_view()),
        }
    }
}

impl DeepView for FieldVal {
    type V = FieldValV;

    open spec fn deep_view(&self) -> FieldValV {
        match self {
            FieldVal::Scalar(s) => FieldValV::Scalar(s.deep_view()),
            FieldVal::Sequence(es) => FieldValV::Sequence(es.deep_view()),
            FieldVal::Mapping => FieldValV::Mapping,
        }
    }
}

impl DeepView for Document {
    type V = DocumentV;

    open spec fn deep_view(&self) -> DocumentV {
        match self {
            Document::Mapping(m) => DocumentV::Mapping(m.deep_view()),
            Document::Other => DocumentV::Other,
        }
    }
}

/// Line and column of a syntax error, as the parser reports them.
#[derive(Clone, Copy, PartialEq, Eq, Structural, Debug)]
pub struct ParsePos {
    pub line: usize,
    pub column: usize,
}

/// What parsing one manifest text yields: a document, or a syntax failure
/// at a position.
pub enum ParsedV {
    Doc(DocumentV),
    Fail(ParsePos),
}

/// What parsing a given text yields, named rather than spelled out: the
/// parser's behaviour depends on the text alone.
pub uninterp spec fn parsed_doc(s: Seq<char>) -> ParsedV;

/// Declares `serde_json::Value` so the conversion helpers below can take
/// it; the compiler never looks inside such a value.
#[verifier::external_type_specification]
#[verifier::external_body]
pub struct ExJsonValue(serde_json::Value);

/// Relies on the variants of `serde_json::Value`: each arm moves the
/// matching data; composite values are kept only as their kind.
#[verifier::external_body]
fn scalar_from_json(v: &serde_json::Value) -> Option<Scalar> {
    match v {
        serde_json::Value::Null => Some(Scalar::Null),
        serde_json::Value::Bool(b) => Some(Scalar::Bool(*b)),
        serde_json::Value::Number(_) => Some(Scalar::Num),
        serde_json::Value::String(s) => Some(Scalar::Str(s.clone())),
        serde_json::Value::Array(_) => None,
        serde_json::Value::Object(_) => None,
    }
}

/// Relies on the variants of `serde_json::Value`: scalars are moved,
/// composite values are kept only as their kind.
#[verifier::external_body]
fn argval_from_json(v: &serde_json::Value) -> ArgVal {
    match scalar_from_json(v) {
        Some(s) => ArgVal::Scalar(s),
        None => if v.is_array() {
            ArgVal::Sequence
        } else {
            ArgVal::Mapping
        },
    }
}

/// Relies on the variants of `serde_json::Value`: a mapping element keeps
/// its keys and values, other composites are kept only as their kind.
#[verifier::external_body]
fn elem_from_json(v: &serde_json::Value) -> Elem {
    match v {
        serde_json::Value::Object(m) => Elem::Mapping(
            m.iter().map(|(k, w)| (k.clone(), argval_from_json(w))).collect(),
        ),
        serde_json::Value::Array(_) => Elem::Sequence,
        other => Elem::Scalar(scalar_from_json(other).unwrap_or(Scalar::Null)),
    }
}

/// Relies on the variants of `serde_json::Value`: a sequence keeps its
/// elements, a mapping this deep is kept only as its kind.
#[verifier::external_body]
fn value_from_json(v: &serde_json::Value) -> FieldVal {
    match v {
        serde_json::Value::Array(a) => FieldVal::Sequence(a.iter().map(elem_from_json).collect()),
        serde_json::Value::Object(_) => FieldVal::Mapping,
        other => FieldVal::Scalar(scalar_from_json(other).unwrap_or(Scalar::Null)),
    }
}

/// Relies on the variants of `serde_json::Value`: a top-level mapping keeps
/// its keys (in the parser's deterministic key order) and values.
#[verifier::external_body]
fn doc_from_json(v: &serde_json::Value) -> Document {
    match v {
        serde_json::Value::Object(m) => Document::Mapping(
            m.iter().map(|(k, w)| (k.clone(), value_from_json(w))).collect(),
        ),
        _ => Document::Other,
    }
}

/// Relies on `serde_json::from_str::<serde_json::Value>`: whether a text
/// parses, and the resulting tree or the reported error position, are a
/// function of the text alone; `parsed_doc` names that function.
#[verifier::external_body]
pub(crate) fn parse_document(text: &str) -> (r: Result<Document, ParsePos>)
    ensures
        (r matches Ok(d) ==> parsed_doc(text@) == ParsedV::Doc(d.deep_view())),
        (r matches Err(p) ==> parsed_doc(text@) == ParsedV::Fail(p)),
{
    match serde_json::from_str::<serde_json::Value>(text) {
        Ok(v) => Ok(doc_from_json(&v)),
        Err(e) => Err(ParsePos { line: e.line(), column: e.column() }),
    }
}

} // verus!
