//! Field extraction from a parsed manifest document.
//!
//! Every top-level field is optional; a field that is present but of the
//! wrong shape is treated as absent (best-effort extraction). The one hard
//! shape requirement — the document itself must be a mapping — is checked
//! by the caller before extraction.

use vstd::prelude::*;

use crate::doc::{ArgVal, ArgValV, Elem, ElemV, FieldVal, FieldValV, Scalar, ScalarV};
use crate::model::{WorkflowArgument, WorkflowArgumentV};
use crate::text::str_eq;

verus! {

/// The fields a manifest may supply, before normalization. Every field is
/// optional; `required` inside an argument is kept as written, its default
/// belongs to the normalizer.
pub struct RawWorkflow {
    pub name: Option<String>,
    pub command: Option<String>,
    pub description: Option<String>,
    pub tags: Option<Vec<String>>,
    pub arguments: Option<Vec<WorkflowArgument>>,
    pub source_url: Option<String>,
    pub author: Option<String>,
    pub author_url: Option<String>,
    pub shells: Option<Vec<String>>,
}

/// Mathematical form of `RawWorkflow`.
pub struct RawWorkflowV {
    pub name: Option<Seq<char>>,
    pub command: Option<Seq<char>>,
    pub description: Option<Seq<char>>,
    pub tags: Option<Seq<Seq<char>>>,
    pub arguments: Option<Seq<WorkflowArgumentV>>,
    pub source_url: Option<Seq<char>>,
    pub author: Option<Seq<char>>,
    pub author_url: Option<Seq<char>>,
    pub shells: Option<Seq<Seq<char>>>,
}

impl DeepView for RawWorkflow {
    type V = RawWorkflowV;

    open spec fn deep_view(&self) -> RawWorkflowV {
        RawWorkflowV {
            name: self.name.deep_view(),
            command: self.command.deep_view(),
            description: self.description.deep_view(),
            tags: self.tags.deep_view(),
            arguments: self.arguments.deep_view(),
            source_url: self.source_url.deep_view(),
            author: self.author.deep_view(),
            author_url: self.author_url.deep_view(),
            shells: self.shells.deep_view(),
        }
    }
}

/// The value of the first field named `key`, if any.
pub open spec fn field_of(fields: Seq<(Seq<char>, FieldValV)>, key: Seq<char>) -> Option<FieldValV>
    decreases fields.len(),
{
    if fields.len() == 0 {
        None
    } else if fields[0].0 == key {
        Some(fields[0].1)
    } else {
        field_of(fields.drop_first(), key)
    }
}

/// A field that is present as a string scalar; any other shape is absent.
pub open spec fn spec_field_str(fields: Seq<(Seq<char>, FieldValV)>, key: Seq<char>) -> Option<
    Seq<char>,
> {
    match field_of(fields, key) {
        Some(FieldValV::Scalar(ScalarV::Str(s))) => Some(s),
        _ => None,
    }
}

/// The strings of a sequence all of whose elements are string scalars;
/// `None` as soon as any element is of another shape.
pub open spec fn str_elems(es: Seq<ElemV>) -> Option<Seq<Seq<char>>>
    decreases es.len(),
{
    if es.len() == 0 {
        Some(Seq::empty())
    } else {
        match (str_elems(es.drop_last()), es.last()) {
            (Some(rest), ElemV::Scalar(ScalarV::Str(s))) => Some(rest.push(s)),
            _ => None,
        }
    }
}

/// A field that is present as a sequence of string scalars; any other
/// shape — including a sequence with one ill-shaped element — is absent.
pub open spec fn spec_field_str_list(
    fields: Seq<(Seq<char>, FieldValV)>,
    key: Seq<char>,
) -> Option<Seq<Seq<char>>> {
    match field_of(fields, key) {
        Some(FieldValV::Sequence(es)) => str_elems(es),
        _ => None,
    }
}

/// The value of the first key named `key` inside an argument mapping.
pub open spec fn arg_field_of(m: Seq<(Seq<char>, ArgValV)>, key: Seq<char>) -> Option<ArgValV>
    decreases m.len(),
{
    if m.len() == 0 {
        None
    } else if m[0].0 == key {
        Some(m[0].1)
    } else {
        arg_field_of(m.drop_first(), key)
    }
}

/// A string-valued key of an argument mapping.
pub open spec fn spec_arg_str(m: Seq<(Seq<char>, ArgValV)>, key: Seq<char>) -> Option<Seq<char>> {
    match arg_field_of(m, key) {
        Some(ArgValV::Scalar(ScalarV::Str(s))) => Some(s),
        _ => None,
    }
}

/// A boolean-valued key of an argument mapping.
pub open spec fn spec_arg_bool(m: Seq<(Seq<char>, ArgValV)>, key: Seq<char>) -> Option<bool> {
    match arg_field_of(m, key) {
        Some(ArgValV::Scalar(ScalarV::Bool(b))) => Some(b),
        _ => None,
    }
}

/// One argument-block element: a mapping with a non-empty string `name`;
/// any other element makes the whole block ill-shaped.
pub open spec fn spec_arg_of_elem(e: ElemV) -> Option<WorkflowArgumentV> {
    match e {
        ElemV::Mapping(m) => match spec_arg_str(m, "name"@) {
            Some(n) => if n.len() > 0 {
                Some(
                    WorkflowArgumentV {
                        name: n,
                        description: spec_arg_str(m, "description"@),
                        default_value: spec_arg_str(m, "default_value"@),
                        required: spec_arg_bool(m, "required"@),
                    },
                )
            } else {
                None
            },
            None => None,
        },
        _ => None,
    }
}

/// The arguments of a sequence all of whose elements are well-shaped
/// argument mappings; `None` as soon as any element is not.
pub open spec fn args_elems(es: Seq<ElemV>) -> Option<Seq<WorkflowArgumentV>>
    decreases es.len(),
{
    if es.len() == 0 {
        Some(Seq::empty())
    } else {
        match (args_elems(es.drop_last()), spec_arg_of_elem(es.last())) {
            (Some(rest), Some(a)) => Some(rest.push(a)),
            _ => None,
        }
    }
}

/// A field that is present as a sequence of well-shaped argument mappings.
pub open spec fn spec_field_args(fields: Seq<(Seq<char>, FieldValV)>, key: Seq<char>) -> Option<
    Seq<WorkflowArgumentV>,
> {
    match field_of(fields, key) {
        Some(FieldValV::Sequence(es)) => args_elems(es),
        _ => None,
    }
}

/// What extraction yields on a top-level mapping: each known field read by
/// its own shape rule, unknown fields ignored.
pub open spec fn spec_extract(fields: Seq<(Seq<char>, FieldValV)>) -> RawWorkflowV {
    RawWorkflowV {
        name: spec_field_str(fields, "name"@),
        command: spec_field_str(fields, "command"@),
        description: spec_field_str(fields, "description"@),
        tags: spec_field_str_list(fields, "tags"@),
        arguments: spec_field_args(fields, "arguments"@),
        source_url: spec_field_str(fields, "source_url"@),
        author: spec_field_str(fields, "author"@),
        author_url: spec_field_str(fields, "author_url"@),
        shells: spec_field_str_list(fields, "shells"@),
    }
}

fn get_field<'a>(fields: &'a Vec<(String, FieldVal)>, key: &str) -> (r: Option<&'a FieldVal>)
    ensures
        match r {
            Some(v) => field_of(fields.deep_view(), key@) == Some(v.deep_view()),
            None => field_of(fields.deep_view(), key@) is None,
        },
{
    let ghost dv = fields.deep_view();
    let mut i: usize = 0;
    proof {
        assert(dv.skip(0) =~= dv);
    }
    while i < fields.len()
        invariant
            i <= fields@.len(),
            dv == fields.deep_view(),
            dv.len() == fields@.len(),
            field_of(dv, key@) == field_of(dv.skip(i as int), key@),
        decreases fields@.len() - i,
    {
        proof {
            assert(dv.skip(i as int)[0] == dv[i as int]);
            assert(dv.skip(i as int).drop_first() =~= dv.skip(i + 1 as int));
            assert(dv[i as int] == (fields@[i as int].0@, fields@[i as int].1.deep_view()));
        }
        if str_eq(fields[i].0.as_str(), key) {
            return Some(&fields[i].1);
        }
        i = i + 1;
    }
    proof {
        assert(dv.skip(dv.len() as int) =~= Seq::<(Seq<char>, FieldValV)>::empty());
    }
    None
}

fn get_arg_field<'a>(m: &'a Vec<(String, ArgVal)>, key: &str) -> (r: Option<&'a ArgVal>)
    ensures
        match r {
            Some(v) => arg_field_of(m.deep_view(), key@) == Some(v.deep_view()),
            None => arg_field_of(m.deep_view(), key@) is None,
        },
{
    let ghost dv = m.deep_view();
    let mut i: usize = 0;
    proof {
        assert(dv.skip(0) =~= dv);
    }
    while i < m.len()
        invariant
            i <= m@.len(),
            dv == m.deep_view(),
            dv.len() == m@.len(),
            arg_field_of(dv, key@) == arg_field_of(dv.skip(i as int), key@),
        decreases m@.len() - i,
    {
        proof {
            assert(dv.skip(i as int)[0] == dv[i as int]);
            assert(dv.skip(i as int).drop_first() =~= dv.skip(i + 1 as int));
            assert(dv[i as int] == (m@[i as int].0@, m@[i as int].1.deep_view()));
        }
        if str_eq(m[i].0.as_str(), key) {
            return Some(&m[i].1);
        }
        i = i + 1;
    }
    proof {
        assert(dv.skip(dv.len() as int) =~= Seq::<(Seq<char>, ArgValV)>::empty());
    }
    None
}

fn extract_str(fields: &Vec<(String, FieldVal)>, key: &str) -> (r: Option<String>)
    ensures
        r.deep_view() == spec_field_str(fields.deep_view(), key@),
{
    match get_field(fields, key) {
        Some(FieldVal::Scalar(Scalar::Str(s))) => Some(s.clone()),
        _ => None,
    }
}

fn arg_str(m: &Vec<(String, ArgVal)>, key: &str) -> (r: Option<String>)
    ensures
        r.deep_view() == spec_arg_str(m.deep_view(), key@),
{
    match get_arg_field(m, key) {
        Some(ArgVal::Scalar(Scalar::Str(s))) => Some(s.clone()),
        _ => None,
    }
}

fn arg_bool(m: &Vec<(String, ArgVal)>, key: &str) -> (r: Option<bool>)
    ensures
        r == spec_arg_bool(m.deep_view(), key@),
{
    match get_arg_field(m, key) {
        Some(ArgVal::Scalar(Scalar::Bool(b))) => Some(*b),
        _ => None,
    }
}

proof fn lemma_str_elems_prefix_none(es: Seq<ElemV>, i: int)
    requires
        0 <= i <= es.len(),
        str_elems(es.take(i)) is None,
    ensures
        str_elems(es) is None,
    decreases es.len() - i,
{
    if i < es.len() {
        assert(es.take(i + 1).drop_last() =~= es.take(i));
        lemma_str_elems_prefix_none(es, i + 1);
    } else {
        assert(es.take(i) =~= es);
    }
}

proof fn lemma_args_elems_prefix_none(es: Seq<ElemV>, i: int)
    requires
        0 <= i <= es.len(),
        args_elems(es.take(i)) is None,
    ensures
        args_elems(es) is None,
    decreases es.len() - i,
{
    if i < es.len() {
        assert(es.take(i + 1).drop_last() =~= es.take(i));
        lemma_args_elems_prefix_none(es, i + 1);
    } else {
        assert(es.take(i) =~= es);
    }
}

fn extract_str_elems(es: &Vec<Elem>) -> (r: Option<Vec<String>>)
    ensures
        match r {
            Some(v) => str_elems(es.deep_view()) == Some(v.deep_view()),
            None => str_elems(es.deep_view()) is None,
        },
{
    let ghost dv = es.deep_view();
    let mut out: Vec<String> = Vec::new();
    let mut i: usize = 0;
    proof {
        assert(dv.take(0) =~= Seq::<ElemV>::empty());
        assert(out.deep_view() =~= Seq::<Seq<char>>::empty());
    }
    while i < es.len()
        invariant
            i <= es@.len(),
            dv == es.deep_view(),
            dv.len() == es@.len(),
            out@.len() == i,
            str_elems(dv.take(i as int)) == Some(out.deep_view()),
        decreases es@.len() - i,
    {
        proof {
            assert(dv.take(i + 1).drop_last() =~= dv.take(i as int));
            assert(dv.take(i + 1).last() == dv[i as int]);
            assert(dv[i as int] == es@[i as int].deep_view());
        }
        match &es[i] {
            Elem::Scalar(Scalar::Str(s)) => {
                let ghost prev = out@;
                out.push(s.clone());
                proof {
                    assert forall|j: int| 0 <= j < out@.len() implies #[trigger] out.deep_view()[j]
                        == str_elems(dv.take(i + 1)).unwrap()[j] by {
                        if j < i {
                            assert(out@[j] == prev[j]);
                        }
                    }
                    assert(out.deep_view() =~= str_elems(dv.take(i + 1)).unwrap());
                }
            },
            _ => {
                proof {
                    lemma_str_elems_prefix_none(dv, i + 1);
                }
                return None;
            },
        }
        i = i + 1;
    }
    proof {
        assert(dv.take(dv.len() as int) =~= dv);
    }
    Some(out)
}

fn extract_str_list(fields: &Vec<(String, FieldVal)>, key: &str) -> (r: Option<Vec<String>>)
    ensures
        match r {
            Some(v) => spec_field_str_list(fields.deep_view(), key@) == Some(v.deep_view()),
            None => spec_field_str_list(fields.deep_view(), key@) is None,
        },
{
    match get_field(fields, key) {
        Some(FieldVal::Sequence(es)) => extract_str_elems(es),
        _ => None,
    }
}

fn extract_arg(e: &Elem) -> (r: Option<WorkflowArgument>)
    ensures
        match r {
            Some(a) => spec_arg_of_elem(e.deep_view()) == Some(a.deep_view()),
            None => spec_arg_of_elem(e.deep_view()) is None,
        },
{
    match e {
        Elem::Mapping(m) => {
            match arg_str(m, "name") {
                Some(n) => {
                    if n.unicode_len() > 0 {
                        Some(
                            WorkflowArgument {
                                name: n,
                                description: arg_str(m, "description"),
                                default_value: arg_str(m, "default_value"),
                                required: arg_bool(m, "required"),
                            },
                        )
                    } else {
                        None
                    }
                },
                None => None,
            }
        },
        _ => None,
    }
}

fn extract_args_elems(es: &Vec<Elem>) -> (r: Option<Vec<WorkflowArgument>>)
    ensures
        match r {
            Some(v) => args_elems(es.deep_view()) == Some(v.deep_view()),
            None => args_elems(es.deep_view()) is None,
        },
{
    let ghost dv = es.deep_view();
    let mut out: Vec<WorkflowArgument> = Vec::new();
    let mut i: usize = 0;
    proof {
        assert(dv.take(0) =~= Seq::<ElemV>::empty());
        assert(out.deep_view() =~= Seq::<WorkflowArgumentV>::empty());
    }
    while i < es.len()
        invariant
            i <= es@.len(),
            dv == es.deep_view(),
            dv.len() == es@.len(),
            out@.len() == i,
            args_elems(dv.take(i as int)) == Some(out.deep_view()),
        decreases es@.len() - i,
    {
        proof {
            assert(dv.take(i + 1).drop_last() =~= dv.take(i as int));
            assert(dv.take(i + 1).last() == dv[i as int]);
            assert(dv[i as int] == es@[i as int].deep_view());
        }
        match extract_arg(&es[i]) {
            Some(a) => {
                let ghost prev = out@;
                let ghost av = a.deep_view();
                out.push(a);
                proof {
                    assert forall|j: int| 0 <= j < out@.len() implies #[trigger] out.deep_view()[j]
                        == args_elems(dv.take(i + 1)).unwrap()[j] by {
                        if j < i {
                            assert(out@[j] == prev[j]);
                        }
                    }
                    assert(out.deep_view() =~= args_elems(dv.take(i + 1)).unwrap());
                }
            },
            None => {
                proof {
                    lemma_args_elems_prefix_none(dv, i + 1);
                }
                return None;
            },
        }
        i = i + 1;
    }
    proof {
        assert(dv.take(dv.len() as int) =~= dv);
    }
    Some(out)
}

fn extract_args(fields: &Vec<(String, FieldVal)>, key: &str) -> (r: Option<Vec<WorkflowArgument>>)
    ensures
        match r {
            Some(v) => spec_field_args(fields.deep_view(), key@) == Some(v.deep_view()),
            None => spec_field_args(fields.deep_view(), key@) is None,
        },
{
    match get_field(fields, key) {
        Some(FieldVal::Sequence(es)) => extract_args_elems(es),
        _ => None,
    }
}

/// Extracts every known top-level field of a parsed mapping, by name and
/// shape; unknown fields are ignored.
pub fn extract_raw(fields: &Vec<(String, FieldVal)>) -> (r: RawWorkflow)
    ensures
        r.deep_view() == spec_extract(fields.deep_view()),
{
    let r = RawWorkflow {
        name: extract_str(fields, "name"),
        command: extract_str(fields, "command"),
        description: extract_str(fields, "description"),
        tags: extract_str_list(fields, "tags"),
        arguments: extract_args(fields, "arguments"),
        source_url: extract_str(fields, "source_url"),
        author: extract_str(fields, "author"),
        author_url: extract_str(fields, "author_url"),
        shells: extract_str_list(fields, "shells"),
    };
    r
}

} // verus!
