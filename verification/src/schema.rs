//! The schema artifact: explicit, hand-maintained structural declarations
//! of the four entities, rendered as type declarations a statically typed
//! consumer can bind against.

use vstd::prelude::*;

use crate::text::{push_str_chars, string_from_chars};

verus! {

/// The type of one declared field, as the downstream consumer sees it.
#[derive(Clone, Copy, PartialEq, Eq, Structural, Debug)]
pub enum TypeDesc {
    Text,
    NullableText,
    NullableBool,
    TextList,
    NullableTextList,
    NullableArgumentList,
    WorkflowList,
    EntryList,
}

/// One declared field: its name and its type.
pub struct FieldDecl {
    pub name: String,
    pub ty: TypeDesc,
}

/// One declared entity: its name and its fields, in declaration order.
pub struct TypeDecl {
    pub name: String,
    pub fields: Vec<FieldDecl>,
}

/// Mathematical form of `FieldDecl`.
pub struct FieldDeclV {
    pub name: Seq<char>,
    pub ty: TypeDesc,
}

/// Mathematical form of `TypeDecl`.
pub struct TypeDeclV {
    pub name: Seq<char>,
    pub fields: Seq<FieldDeclV>,
}

impl DeepView for FieldDecl {
    type V = FieldDeclV;

    open spec fn deep_view(&self) -> FieldDeclV {
        FieldDeclV { name: self.name.deep_view(), ty: self.ty }
    }
}

impl DeepView for TypeDecl {
    type V = TypeDeclV;

    open spec fn deep_view(&self) -> TypeDeclV {
        TypeDeclV { name: self.name.deep_view(), fields: self.fields.deep_view() }
    }
}

/// The declaration-language name of a field type.
pub open spec fn ts_of(d: TypeDesc) -> Seq<char> {
    match d {
        TypeDesc::Text => "string"@,
        TypeDesc::NullableText => "string | null"@,
        TypeDesc::NullableBool => "boolean | null"@,
        TypeDesc::TextList => "string[]"@,
        TypeDesc::NullableTextList => "string[] | null"@,
        TypeDesc::NullableArgumentList => "WorkflowArgument[] | null"@,
        TypeDesc::WorkflowList => "Workflow[]"@,
        TypeDesc::EntryList => "SearchIndexEntry[]"@,
    }
}

/// One rendered field line.
pub open spec fn render_field(f: FieldDeclV) -> Seq<char> {
    "  "@ + f.name + ": "@ + ts_of(f.ty) + ";\n"@
}

/// All field lines of one declaration, in order.
pub open spec fn render_fields(fs: Seq<FieldDeclV>) -> Seq<char>
    decreases fs.len(),
{
    if fs.len() == 0 {
        Seq::empty()
    } else {
        render_fields(fs.drop_last()) + render_field(fs.last())
    }
}

/// One rendered entity declaration.
pub open spec fn render_decl(d: TypeDeclV) -> Seq<char> {
    "export interface "@ + d.name + " {\n"@ + render_fields(d.fields) + "}\n\n"@
}

/// All rendered declarations, in order.
pub open spec fn render_decls(ds: Seq<TypeDeclV>) -> Seq<char>
    decreases ds.len(),
{
    if ds.len() == 0 {
        Seq::empty()
    } else {
        render_decls(ds.drop_last()) + render_decl(ds.last())
    }
}

/// The structural declaration of `WorkflowArgument`.
pub open spec fn spec_argument_decl() -> TypeDeclV {
    TypeDeclV {
        name: "WorkflowArgument"@,
        fields: seq![
            FieldDeclV { name: "name"@, ty: TypeDesc::Text },
            FieldDeclV { name: "description"@, ty: TypeDesc::NullableText },
            FieldDeclV { name: "default_value"@, ty: TypeDesc::NullableText },
            FieldDeclV { name: "required"@, ty: TypeDesc::NullableBool },
        ],
    }
}

/// The structural declaration of `Workflow`.
pub open spec fn spec_workflow_decl() -> TypeDeclV {
    TypeDeclV {
        name: "Workflow"@,
        fields: seq![
            FieldDeclV { name: "name"@, ty: TypeDesc::Text },
            FieldDeclV { name: "command"@, ty: TypeDesc::Text },
            FieldDeclV { name: "description"@, ty: TypeDesc::NullableText },
            FieldDeclV { name: "tags"@, ty: TypeDesc::NullableTextList },
            FieldDeclV { name: "arguments"@, ty: TypeDesc::NullableArgumentList },
            FieldDeclV { name: "source_url"@, ty: TypeDesc::NullableText },
            FieldDeclV { name: "author"@, ty: TypeDesc::NullableText },
            FieldDeclV { name: "author_url"@, ty: TypeDesc::NullableText },
            FieldDeclV { name: "shells"@, ty: TypeDesc::NullableTextList },
            FieldDeclV { name: "slug"@, ty: TypeDesc::Text },
        ],
    }
}

/// The structural declaration of `SearchIndexEntry`.
pub open spec fn spec_entry_decl() -> TypeDeclV {
    TypeDeclV {
        name: "SearchIndexEntry"@,
        fields: seq![
            FieldDeclV { name: "slug"@, ty: TypeDesc::Text },
            FieldDeclV { name: "name"@, ty: TypeDesc::Text },
            FieldDeclV { name: "description"@, ty: TypeDesc::Text },
            FieldDeclV { name: "tags"@, ty: TypeDesc::TextList },
            FieldDeclV { name: "command"@, ty: TypeDesc::Text },
            FieldDeclV { name: "author"@, ty: TypeDesc::NullableText },
            FieldDeclV { name: "searchable_text"@, ty: TypeDesc::Text },
        ],
    }
}

/// The structural declaration of `WorkflowCollection`.
pub open spec fn spec_collection_decl() -> TypeDeclV {
    TypeDeclV {
        name: "WorkflowCollection"@,
        fields: seq![
            FieldDeclV { name: "workflows"@, ty: TypeDesc::WorkflowList },
            FieldDeclV { name: "search_index"@, ty: TypeDesc::EntryList },
            FieldDeclV { name: "tags"@, ty: TypeDesc::TextList },
        ],
    }
}

/// The four entity declarations, in dependency order.
pub open spec fn spec_schema_decls() -> Seq<TypeDeclV> {
    seq![spec_argument_decl(), spec_workflow_decl(), spec_entry_decl(), spec_collection_decl()]
}

/// The whole schema artifact.
pub open spec fn spec_schema_artifact() -> Seq<char> {
    render_decls(spec_schema_decls())
}

fn make_field(name: &str, ty: TypeDesc) -> (r: FieldDecl)
    ensures
        r.deep_view() == (FieldDeclV { name: name@, ty }),
{
    FieldDecl { name: name.to_owned(), ty }
}

/// The hand-maintained structural declarations of the four entities.
pub fn schema_decls() -> (r: Vec<TypeDecl>)
    ensures
        r.deep_view() == spec_schema_decls(),
{
    let mut af: Vec<FieldDecl> = Vec::new();
    af.push(make_field("name", TypeDesc::Text));
    af.push(make_field("description", TypeDesc::NullableText));
    af.push(make_field("default_value", TypeDesc::NullableText));
    af.push(make_field("required", TypeDesc::NullableBool));
    let arg_decl = TypeDecl { name: "WorkflowArgument".to_owned(), fields: af };
    proof {
        assert(arg_decl.deep_view().fields =~= spec_argument_decl().fields);
    }
    let mut wf: Vec<FieldDecl> = Vec::new();
    wf.push(make_field("name", TypeDesc::Text));
    wf.push(make_field("command", TypeDesc::Text));
    wf.push(make_field("description", TypeDesc::NullableText));
    wf.push(make_field("tags", TypeDesc::NullableTextList));
    wf.push(make_field("arguments", TypeDesc::NullableArgumentList));
    wf.push(make_field("source_url", TypeDesc::NullableText));
    wf.push(make_field("author", TypeDesc::NullableText));
    wf.push(make_field("author_url", TypeDesc::NullableText));
    wf.push(make_field("shells", TypeDesc::NullableTextList));
    wf.push(make_field("slug", TypeDesc::Text));
    let wf_decl = TypeDecl { name: "Workflow".to_owned(), fields: wf };
    proof {
        assert(wf_decl.deep_view().fields =~= spec_workflow_decl().fields);
    }
    let mut ef: Vec<FieldDecl> = Vec::new();
    ef.push(make_field("slug", TypeDesc::Text));
    ef.push(make_field("name", TypeDesc::Text));
    ef.push(make_field("description", TypeDesc::Text));
    ef.push(make_field("tags", TypeDesc::TextList));
    ef.push(make_field("command", TypeDesc::Text));
    ef.push(make_field("author", TypeDesc::NullableText));
    ef.push(make_field("searchable_text", TypeDesc::Text));
    let entry_decl = TypeDecl { name: "SearchIndexEntry".to_owned(), fields: ef };
    proof {
        assert(entry_decl.deep_view().fields =~= spec_entry_decl().fields);
    }
    let mut cf: Vec<FieldDecl> = Vec::new();
    cf.push(make_field("workflows", TypeDesc::WorkflowList));
    cf.push(make_field("search_index", TypeDesc::EntryList));
    cf.push(make_field("tags", TypeDesc::TextList));
    let coll_decl = TypeDecl { name: "WorkflowCollection".to_owned(), fields: cf };
    proof {
        assert(coll_decl.deep_view().fields =~= spec_collection_decl().fields);
    }
    let mut r: Vec<TypeDecl> = Vec::new();
    r.push(arg_decl);
    r.push(wf_decl);
    r.push(entry_decl);
    r.push(coll_decl);
    proof {
        assert(r.deep_view() =~= spec_schema_decls());
    }
    r
}

fn push_type_name(out: &mut Vec<char>, ty: TypeDesc)
    ensures
        final(out)@ == old(out)@ + ts_of(ty),
{
    match ty {
        TypeDesc::Text => push_str_chars(out, "string"),
        TypeDesc::NullableText => push_str_chars(out, "string | null"),
        TypeDesc::NullableBool => push_str_chars(out, "boolean | null"),
        TypeDesc::TextList => push_str_chars(out, "string[]"),
        TypeDesc::NullableTextList => push_str_chars(out, "string[] | null"),
        TypeDesc::NullableArgumentList => push_str_chars(out, "WorkflowArgument[] | null"),
        TypeDesc::WorkflowList => push_str_chars(out, "Workflow[]"),
        TypeDesc::EntryList => push_str_chars(out, "SearchIndexEntry[]"),
    }
}

fn push_decl(out: &mut Vec<char>, d: &TypeDecl)
    ensures
        final(out)@ == old(out)@ + render_decl(d.deep_view()),
{
    push_str_chars(out, "export interface ");
    push_str_chars(out, d.name.as_str());
    push_str_chars(out, " {\n");
    let ghost fv = d.fields.deep_view();
    let ghost start = out@;
    let mut i: usize = 0;
    proof {
        assert(fv.take(0) =~= Seq::<FieldDeclV>::empty());
        assert(start + render_fields(fv.take(0)) =~= start);
    }
    while i < d.fields.len()
        invariant
            i <= d.fields@.len(),
            fv == d.fields.deep_view(),
            fv.len() == d.fields@.len(),
            out@ == start + render_fields(fv.take(i as int)),
        decreases d.fields@.len() - i,
    {
        let ghost prev = out@;
        proof {
            assert(fv.take(i + 1).drop_last() =~= fv.take(i as int));
            assert(fv.take(i + 1).last() == fv[i as int]);
            assert(fv[i as int] == d.fields@[i as int].deep_view());
        }
        push_str_chars(out, "  ");
        push_str_chars(out, d.fields[i].name.as_str());
        push_str_chars(out, ": ");
        push_type_name(out, d.fields[i].ty);
        push_str_chars(out, ";\n");
        proof {
            assert(out@ =~= prev + render_field(fv[i as int]));
            assert(prev + render_field(fv[i as int]) =~= start + render_fields(fv.take(i + 1)));
        }
        i = i + 1;
    }
    push_str_chars(out, "}\n\n");
    proof {
        assert(fv.take(fv.len() as int) =~= fv);
        assert(out@ =~= old(out)@ + render_decl(d.deep_view()));
    }
}

/// Renders the schema artifact from the entity declarations.
pub fn emit_schema_artifact() -> (r: String)
    ensures
        r@ == spec_schema_artifact(),
{
    let decls = schema_decls();
    let ghost dv = decls.deep_view();
    let mut out: Vec<char> = Vec::new();
    let mut i: usize = 0;
    proof {
        assert(dv.take(0) =~= Seq::<TypeDeclV>::empty());
        assert(out@ =~= render_decls(dv.take(0)));
    }
    while i < decls.len()
        invariant
            i <= decls@.len(),
            dv == decls.deep_view(),
            dv.len() == decls@.len(),
            out@ == render_decls(dv.take(i as int)),
        decreases decls@.len() - i,
    {
        let ghost prev = out@;
        proof {
            assert(dv.take(i + 1).drop_last() =~= dv.take(i as int));
            assert(dv.take(i + 1).last() == dv[i as int]);
            assert(dv[i as int] == decls@[i as int].deep_view());
        }
        push_decl(&mut out, &decls[i]);
        proof {
            assert(out@ =~= render_decls(dv.take(i + 1)));
        }
        i = i + 1;
    }
    proof {
        assert(dv.take(dv.len() as int) =~= dv);
        assert(out@ =~= spec_schema_artifact());
    }
    string_from_chars(&out)
}

} // verus!
