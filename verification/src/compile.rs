//! The compiler pipeline: manifest candidates are selected by file suffix,
//! ordered by path so that discovery order never matters, parsed and
//! normalized one by one with per-file errors collected, and aggregated
//! into the collection.

use vstd::prelude::*;

use crate::collection::{
    build_collection, collection_wf, spec_build, DuplicateSlug, DuplicateSlugV,
};
use crate::doc::{parse_document, parsed_doc, Document, DocumentV, ParsePos, ParsedV};
use crate::extract::{extract_raw, spec_extract};
use crate::model::{Workflow, WorkflowCollection, WorkflowCollectionV, WorkflowV};
use crate::normalize::{normalize, spec_normalize};
use crate::text::{seq_lt, str_eq, str_lt};
use vstd::multiset::Multiset;
use vstd::relations::{sorted_by, total_ordering};
use vstd::seq_lib::{lemma_multiset_commutative, lemma_sorted_unique};

verus! {

/// One discovered source file: its path and its raw text content.
#[derive(Debug, Clone, PartialEq)]
pub struct SourceFile {
    pub path: String,
    pub text: String,
}

/// Mathematical form of `SourceFile`.
#[verifier::ext_equal]
pub struct SourceFileV {
    pub path: Seq<char>,
    pub text: Seq<char>,
}

impl DeepView for SourceFile {
    type V = SourceFileV;

    open spec fn deep_view(&self) -> SourceFileV {
        SourceFileV { path: self.path.deep_view(), text: self.text.deep_view() }
    }
}

/// Why one file failed to parse: a syntax error at a position, or a
/// document whose top level is not a mapping.
#[derive(Clone, Copy, PartialEq, Eq, Structural, Debug)]
pub enum ParseIssue {
    Syntax(ParsePos),
    NotAMapping,
}

/// One file's parse failure, naming the file.
#[derive(Debug, Clone, PartialEq)]
pub struct FileError {
    pub path: String,
    pub issue: ParseIssue,
}

/// Mathematical form of `FileError`.
pub struct FileErrorV {
    pub path: Seq<char>,
    pub issue: ParseIssue,
}

impl DeepView for FileError {
    type V = FileErrorV;

    open spec fn deep_view(&self) -> FileErrorV {
        FileErrorV { path: self.path.deep_view(), issue: self.issue }
    }
}

/// Why a whole run failed: per-file parse errors (collected, with the
/// names of the workflows that did compile), or a slug collision.
#[derive(Debug, Clone, PartialEq)]
pub enum CompileError {
    Manifests { errors: Vec<FileError>, compiled: Vec<String> },
    Duplicate(DuplicateSlug),
}

/// Mathematical form of `CompileError`.
pub enum CompileErrorV {
    Manifests { errors: Seq<FileErrorV>, compiled: Seq<Seq<char>> },
    Duplicate(DuplicateSlugV),
}

impl DeepView for CompileError {
    type V = CompileErrorV;

    open spec fn deep_view(&self) -> CompileErrorV {
        match self {
            CompileError::Manifests { errors, compiled } => CompileErrorV::Manifests {
                errors: errors.deep_view(),
                compiled: compiled.deep_view(),
            },
            CompileError::Duplicate(d) => CompileErrorV::Duplicate(d.deep_view()),
        }
    }
}

/// `s` ends with `suffix`.
pub open spec fn spec_ends_with(s: Seq<char>, suffix: Seq<char>) -> bool {
    s.len() >= suffix.len() && s.skip(s.len() - suffix.len()) == suffix
}

pub open spec fn yaml_suffix() -> Seq<char> {
    seq!['.', 'y', 'a', 'm', 'l']
}

pub open spec fn yml_suffix() -> Seq<char> {
    seq!['.', 'y', 'm', 'l']
}

pub open spec fn json_suffix() -> Seq<char> {
    seq!['.', 'j', 's', 'o', 'n']
}

/// A path that names a manifest candidate: one of the recognized
/// definition-file suffixes.
pub open spec fn spec_is_manifest_path(p: Seq<char>) -> bool {
    spec_ends_with(p, yaml_suffix()) || spec_ends_with(p, yml_suffix()) || spec_ends_with(
        p,
        json_suffix(),
    )
}

/// The position right after the last `/` of `p`; 0 when `p` has none.
pub open spec fn last_slash_end(p: Seq<char>) -> int
    decreases p.len(),
{
    if p.len() == 0 {
        0
    } else if p.last() == '/' {
        p.len() as int
    } else {
        last_slash_end(p.drop_last())
    }
}

/// The base name of a path: everything after its last `/`.
pub open spec fn spec_base(p: Seq<char>) -> Seq<char> {
    p.skip(last_slash_end(p))
}

/// The stem a slug is derived from: the base name with its recognized
/// suffix removed.
pub open spec fn spec_stem(p: Seq<char>) -> Seq<char> {
    let b = spec_base(p);
    if spec_ends_with(b, yaml_suffix()) {
        b.take(b.len() - 5)
    } else if spec_ends_with(b, yml_suffix()) {
        b.take(b.len() - 4)
    } else if spec_ends_with(b, json_suffix()) {
        b.take(b.len() - 5)
    } else {
        b
    }
}

fn ends_with(s: &str, suffix: &str) -> (r: bool)
    ensures
        r == spec_ends_with(s@, suffix@),
{
    let sl = s.unicode_len();
    let fl = suffix.unicode_len();
    if fl > sl {
        return false;
    }
    let start = sl - fl;
    let mut i: usize = 0;
    while i < fl
        invariant
            i <= fl,
            fl <= sl,
            start == sl - fl,
            sl == s@.len(),
            fl == suffix@.len(),
            forall|j: int| 0 <= j < i ==> s@[start + j] == suffix@[j],
        decreases fl - i,
    {
        if s.get_char(start + i) != suffix.get_char(i) {
            proof {
                assert(s@.skip(start as int)[i as int] == s@[start + i]);
            }
            return false;
        }
        i = i + 1;
    }
    proof {
        assert(s@.skip(start as int) =~= suffix@);
    }
    true
}

/// Whether a path names a manifest candidate; other files are ignored.
pub fn is_manifest_path(p: &str) -> (r: bool)
    ensures
        r == spec_is_manifest_path(p@),
{
    proof {
        reveal_strlit(".yaml");
        reveal_strlit(".yml");
        reveal_strlit(".json");
        assert(".yaml"@ =~= yaml_suffix());
        assert(".yml"@ =~= yml_suffix());
        assert(".json"@ =~= json_suffix());
    }
    ends_with(p, ".yaml") || ends_with(p, ".yml") || ends_with(p, ".json")
}

fn base_of(p: &str) -> (r: &str)
    ensures
        r@ == spec_base(p@),
{
    let len = p.unicode_len();
    let mut i: usize = len;
    proof {
        assert(p@.take(len as int) =~= p@);
    }
    while i > 0
        invariant
            i <= len,
            len == p@.len(),
            last_slash_end(p@) == last_slash_end(p@.take(i as int)),
        decreases i,
    {
        proof {
            assert(p@.take(i as int).last() == p@[i - 1]);
            assert(p@.take(i as int).drop_last() =~= p@.take(i - 1));
        }
        if p.get_char(i - 1) == '/' {
            proof {
                assert(last_slash_end(p@.take(i as int)) == i);
            }
            return p.substring_char(i, len);
        }
        i = i - 1;
    }
    proof {
        assert(p@.take(0) =~= Seq::<char>::empty());
        assert(last_slash_end(p@) == 0);
        assert(p@.skip(0) =~= p@);
    }
    p.substring_char(0, len)
}

/// The stem of a manifest path: base name, recognized suffix removed.
pub fn stem_of(p: &str) -> (r: &str)
    ensures
        r@ == spec_stem(p@),
{
    proof {
        reveal_strlit(".yaml");
        reveal_strlit(".yml");
        reveal_strlit(".json");
        assert(".yaml"@ =~= yaml_suffix());
        assert(".yml"@ =~= yml_suffix());
        assert(".json"@ =~= json_suffix());
    }
    let b = base_of(p);
    let blen = b.unicode_len();
    if ends_with(b, ".yaml") {
        b.substring_char(0, blen - 5)
    } else if ends_with(b, ".yml") {
        b.substring_char(0, blen - 4)
    } else if ends_with(b, ".json") {
        b.substring_char(0, blen - 5)
    } else {
        b
    }
}

impl SourceFile {
    /// An exact copy.
    pub fn duplicate(&self) -> (r: SourceFile)
        ensures
            r.deep_view() == self.deep_view(),
    {
        SourceFile { path: self.path.clone(), text: self.text.clone() }
    }
}

/// The manifest candidates among the supplied files, in the given order.
pub open spec fn spec_candidates(files: Seq<SourceFileV>) -> Seq<SourceFileV>
    decreases files.len(),
{
    if files.len() == 0 {
        Seq::empty()
    } else {
        spec_candidates(files.drop_last()) + if spec_is_manifest_path(files.last().path) {
            seq![files.last()]
        } else {
            Seq::empty()
        }
    }
}

fn candidates(files: &Vec<SourceFile>) -> (r: Vec<SourceFile>)
    ensures
        r.deep_view() == spec_candidates(files.deep_view()),
{
    let ghost dv = files.deep_view();
    let mut out: Vec<SourceFile> = Vec::new();
    let mut i: usize = 0;
    proof {
        assert(dv.take(0) =~= Seq::<SourceFileV>::empty());
        assert(out.deep_view() =~= spec_candidates(dv.take(0)));
    }
    while i < files.len()
        invariant
            i <= files@.len(),
            dv == files.deep_view(),
            dv.len() == files@.len(),
            out.deep_view() == spec_candidates(dv.take(i as int)),
        decreases files@.len() - i,
    {
        proof {
            assert(dv.take(i + 1).drop_last() =~= dv.take(i as int));
            assert(dv.take(i + 1).last() == dv[i as int]);
            assert(dv[i as int] == files@[i as int].deep_view());
        }
        if is_manifest_path(files[i].path.as_str()) {
            let ghost before = out.deep_view();
            out.push(files[i].duplicate());
            proof {
                assert forall|j: int| 0 <= j < out@.len() implies #[trigger] out.deep_view()[j]
                    == before.push(dv[i as int])[j] by {}
                assert(out.deep_view() =~= before.push(dv[i as int]));
                assert(spec_candidates(dv.take(i + 1)) =~= before.push(dv[i as int]));
            }
        } else {
            proof {
                assert(spec_candidates(dv.take(i + 1)) =~= spec_candidates(dv.take(i as int)));
            }
        }
        i = i + 1;
    }
    proof {
        assert(dv.take(dv.len() as int) =~= dv);
    }
    out
}

/// The order compilation processes files in: by path, ties broken by
/// content, so that the order is total and the sorted sequence unique.
pub open spec fn file_le(a: SourceFileV, b: SourceFileV) -> bool {
    seq_lt(a.path, b.path) || (a.path == b.path && (seq_lt(a.text, b.text) || a.text == b.text))
}

/// `file_le` as a relation value.
pub open spec fn file_le_fn() -> spec_fn(SourceFileV, SourceFileV) -> bool {
    |a: SourceFileV, b: SourceFileV| file_le(a, b)
}

/// `file_le` is a total ordering, so sorting by it is well-defined and
/// its result unique.
pub proof fn lemma_file_le_total_ordering()
    ensures
        total_ordering(file_le_fn()),
{
    let leq = file_le_fn();
    assert forall|a: SourceFileV| #[trigger] leq(a, a) by {}
    assert forall|a: SourceFileV, b: SourceFileV| #[trigger] leq(a, b) && #[trigger] leq(b, a)
        implies a == b by {
        crate::text::lemma_seq_lt_asymmetric(a.path, b.path);
        crate::text::lemma_seq_lt_asymmetric(a.text, b.text);
        assert(a.path == b.path && a.text == b.text);
        assert(a =~= b);
    }
    assert forall|a: SourceFileV, b: SourceFileV, c: SourceFileV|
        #[trigger] leq(a, b) && #[trigger] leq(b, c) implies leq(a, c) by {
        if seq_lt(a.path, b.path) && seq_lt(b.path, c.path) {
            crate::text::lemma_seq_lt_transitive(a.path, b.path, c.path);
        } else if a.path == b.path && a.text == b.text {
        } else if b.path == c.path && b.text == c.text {
        } else if a.path == b.path && seq_lt(b.path, c.path) {
        } else if seq_lt(a.path, b.path) && b.path == c.path {
        } else {
            crate::text::lemma_seq_lt_transitive(a.text, b.text, c.text);
        }
    }
    assert forall|a: SourceFileV, b: SourceFileV| #[trigger] leq(a, b) || #[trigger] leq(b, a) by {
        crate::text::lemma_seq_lt_total(a.path, b.path);
        if !seq_lt(a.path, b.path) && !seq_lt(b.path, a.path) {
            crate::text::lemma_seq_lt_total(a.text, b.text);
        }
    }
}

/// The candidates in compilation order.
pub open spec fn spec_sort_files(s: Seq<SourceFileV>) -> Seq<SourceFileV> {
    s.sort_by(file_le_fn())
}

fn file_le_exec(a: &SourceFile, b: &SourceFile) -> (r: bool)
    ensures
        r == file_le(a.deep_view(), b.deep_view()),
{
    if str_lt(a.path.as_str(), b.path.as_str()) {
        return true;
    }
    if !str_eq(a.path.as_str(), b.path.as_str()) {
        return false;
    }
    str_lt(a.text.as_str(), b.text.as_str()) || str_eq(a.text.as_str(), b.text.as_str())
}

fn sort_files(files: &Vec<SourceFile>) -> (r: Vec<SourceFile>)
    ensures
        r.deep_view() == spec_sort_files(files.deep_view()),
{
    let ghost dv = files.deep_view();
    let ghost leq = file_le_fn();
    proof {
        lemma_file_le_total_ordering();
        dv.lemma_sort_by_ensures(leq);
    }
    let mut out: Vec<SourceFile> = Vec::new();
    let mut i: usize = 0;
    proof {
        assert(dv.take(0) =~= Seq::<SourceFileV>::empty());
        assert(out.deep_view() =~= Seq::<SourceFileV>::empty());
        assert(out.deep_view().to_multiset() =~= dv.take(0).to_multiset());
    }
    while i < files.len()
        invariant
            i <= files@.len(),
            dv == files.deep_view(),
            dv.len() == files@.len(),
            leq == file_le_fn(),
            total_ordering(leq),
            sorted_by(out.deep_view(), leq),
            out.deep_view().to_multiset() == dv.take(i as int).to_multiset(),
            out@.len() == i,
        decreases files@.len() - i,
    {
        let f = files[i].duplicate();
        let ghost fv = dv[i as int];
        proof {
            assert(f.deep_view() == fv);
        }
        let ghost before = out.deep_view();
        let mut k: usize = 0;
        let mut found = false;
        while !found && k < out.len()
            invariant
                k <= out@.len(),
                out.deep_view() == before,
                out@.len() == before.len(),
                leq == file_le_fn(),
                total_ordering(leq),
                f.deep_view() == fv,
                forall|j: int| 0 <= j < k ==> #[trigger] leq(before[j], fv),
                found ==> k < before.len() && !leq(before[k as int], fv),
            decreases out@.len() - k, (if found { 0int } else { 1int }),
        {
            proof {
                assert(out.deep_view()[k as int] == out@[k as int].deep_view());
            }
            if !file_le_exec(&out[k], &f) {
                found = true;
            } else {
                k = k + 1;
            }
        }
        proof {
            if k < out@.len() {
                assert(!leq(before[k as int], fv));
                assert(leq(fv, before[k as int]));
            }
        }
        out.insert(k, f);
        proof {
            let after = out.deep_view();
            assert forall|j: int| 0 <= j < after.len() implies after[j] == before.insert(
                k as int,
                fv,
            )[j] by {
                if j < k {
                    assert(out@[j] == out@[j]);
                }
            }
            assert(after =~= before.insert(k as int, fv));
            // sortedness of the new sequence
            assert forall|x: int, y: int| 0 <= x < y < after.len() implies #[trigger] leq(
                after[x],
                after[y],
            ) by {
                if x < k && y == k {
                } else if x == k && y > k {
                    if k < before.len() {
                        assert(leq(fv, before[k as int]));
                        if y - 1 > k {
                            assert(leq(before[k as int], before[y - 1]));
                        }
                    }
                } else if x < k && y > k {
                    assert(leq(before[x], before[y - 1]));
                } else if x > k && y > k {
                    assert(leq(before[x - 1], before[y - 1]));
                }
            }
            // multiset of the new sequence
            assert(before.insert(k as int, fv) =~= before.take(k as int) + seq![fv] + before.skip(
                k as int,
            ));
            lemma_multiset_commutative(before.take(k as int) + seq![fv], before.skip(k as int));
            lemma_multiset_commutative(before.take(k as int), seq![fv]);
            assert(before =~= before.take(k as int) + before.skip(k as int));
            lemma_multiset_commutative(before.take(k as int), before.skip(k as int));
            assert(seq![fv].to_multiset() =~= Multiset::<SourceFileV>::empty().insert(fv)) by {
                assert(seq![fv] =~= Seq::<SourceFileV>::empty().push(fv));
                Seq::<SourceFileV>::empty().to_multiset_ensures();
            }
            broadcast use vstd::multiset::group_multiset_axioms;

            assert(after.to_multiset() =~= before.to_multiset().insert(fv));
            assert(dv.take(i + 1).drop_last() =~= dv.take(i as int));
            dv.take(i as int).to_multiset_ensures();
            assert(dv.take(i + 1) =~= dv.take(i as int).push(fv));
            assert(dv.take(i as int).push(fv).to_multiset() =~= dv.take(
                i as int,
            ).to_multiset().insert(fv));
            assert(dv.take(i + 1).to_multiset() =~= dv.take(i as int).to_multiset().insert(fv));
        }
        i = i + 1;
    }
    proof {
        assert(dv.take(dv.len() as int) =~= dv);
        lemma_sorted_unique(out.deep_view(), spec_sort_files(dv), leq);
        assert(out.deep_view() =~= spec_sort_files(dv));
    }
    out
}

/// What parsing and normalizing one source file yields: the canonical
/// workflow, or the file's error.
pub open spec fn spec_parse_one(f: SourceFileV) -> Result<WorkflowV, FileErrorV> {
    match parsed_doc(f.text) {
        ParsedV::Fail(p) => Err(FileErrorV { path: f.path, issue: ParseIssue::Syntax(p) }),
        ParsedV::Doc(d) => match d {
            DocumentV::Mapping(fields) => Ok(
                spec_normalize(spec_extract(fields), spec_stem(f.path)),
            ),
            DocumentV::Other => Err(FileErrorV { path: f.path, issue: ParseIssue::NotAMapping }),
        },
    }
}

/// Parses one manifest file and normalizes it into a workflow; a file
/// whose text does not parse, or whose top level is not a mapping, yields
/// its error instead.
pub fn parse_one(f: &SourceFile) -> (r: Result<Workflow, FileError>)
    ensures
        match r {
            Ok(w) => spec_parse_one(f.deep_view()) == Ok::<WorkflowV, FileErrorV>(w.deep_view()),
            Err(e) => spec_parse_one(f.deep_view()) == Err::<WorkflowV, FileErrorV>(e.deep_view()),
        },
{
    match parse_document(f.text.as_str()) {
        Err(p) => Err(FileError { path: f.path.clone(), issue: ParseIssue::Syntax(p) }),
        Ok(Document::Other) => Err(
            FileError { path: f.path.clone(), issue: ParseIssue::NotAMapping },
        ),
        Ok(Document::Mapping(fields)) => {
            let raw = extract_raw(&fields);
            let stem = stem_of(f.path.as_str());
            Ok(normalize(raw, stem))
        },
    }
}

/// The errors of the files that fail to parse, in compilation order.
pub open spec fn spec_errors(fs: Seq<SourceFileV>) -> Seq<FileErrorV>
    decreases fs.len(),
{
    if fs.len() == 0 {
        Seq::empty()
    } else {
        spec_errors(fs.drop_last()) + match spec_parse_one(fs.last()) {
            Ok(_) => Seq::empty(),
            Err(e) => seq![e],
        }
    }
}

/// The (path, workflow) pairs of the files that parse, in compilation
/// order.
pub open spec fn spec_oks(fs: Seq<SourceFileV>) -> Seq<(Seq<char>, WorkflowV)>
    decreases fs.len(),
{
    if fs.len() == 0 {
        Seq::empty()
    } else {
        spec_oks(fs.drop_last()) + match spec_parse_one(fs.last()) {
            Ok(w) => seq![(fs.last().path, w)],
            Err(_) => Seq::empty(),
        }
    }
}

/// What compiling a set of source files yields. Candidates are selected
/// by suffix and sorted by path; if any candidate fails to parse, the run
/// fails with every file's error and the names of the workflows that did
/// compile; otherwise the collection is built, failing on a slug
/// collision.
pub open spec fn spec_compile(files: Seq<SourceFileV>) -> Result<
    WorkflowCollectionV,
    CompileErrorV,
> {
    let sorted = spec_sort_files(spec_candidates(files));
    let errs = spec_errors(sorted);
    let oks = spec_oks(sorted);
    if errs.len() > 0 {
        Err(
            CompileErrorV::Manifests {
                errors: errs,
                compiled: oks.map_values(|p: (Seq<char>, WorkflowV)| p.1.name),
            },
        )
    } else {
        match spec_build(oks) {
            Ok(c) => Ok(c),
            Err(d) => Err(CompileErrorV::Duplicate(d)),
        }
    }
}

/// Compiles the supplied source files into a workflow collection.
pub fn compile(files: &Vec<SourceFile>) -> (r: Result<WorkflowCollection, CompileError>)
    ensures
        match r {
            Ok(c) => spec_compile(files.deep_view()) == Ok::<WorkflowCollectionV, CompileErrorV>(
                c.deep_view(),
            ) && collection_wf(c.deep_view()),
            Err(e) => spec_compile(files.deep_view()) == Err::<WorkflowCollectionV, CompileErrorV>(
                e.deep_view(),
            ),
        },
{
    let cands = candidates(files);
    let sorted = sort_files(&cands);
    let ghost sv = sorted.deep_view();
    let mut errors: Vec<FileError> = Vec::new();
    let mut oks: Vec<(String, Workflow)> = Vec::new();
    let mut names: Vec<String> = Vec::new();
    let mut i: usize = 0;
    proof {
        assert(sv.take(0) =~= Seq::<SourceFileV>::empty());
        assert(errors.deep_view() =~= spec_errors(sv.take(0)));
        assert(oks.deep_view() =~= spec_oks(sv.take(0)));
        assert(names.deep_view() =~= spec_oks(sv.take(0)).map_values(
            |p: (Seq<char>, WorkflowV)| p.1.name,
        ));
    }
    while i < sorted.len()
        invariant
            i <= sorted@.len(),
            sv == sorted.deep_view(),
            sv.len() == sorted@.len(),
            errors.deep_view() == spec_errors(sv.take(i as int)),
            oks.deep_view() == spec_oks(sv.take(i as int)),
            names.deep_view() == spec_oks(sv.take(i as int)).map_values(
                |p: (Seq<char>, WorkflowV)| p.1.name,
            ),
        decreases sorted@.len() - i,
    {
        proof {
            assert(sv.take(i + 1).drop_last() =~= sv.take(i as int));
            assert(sv.take(i + 1).last() == sv[i as int]);
            assert(sv[i as int] == sorted@[i as int].deep_view());
        }
        match parse_one(&sorted[i]) {
            Ok(w) => {
                let ghost before = oks.deep_view();
                let ghost names_before = names.deep_view();
                names.push(w.name.clone());
                oks.push((sorted[i].path.clone(), w));
                proof {
                    assert forall|j: int| 0 <= j < oks@.len() implies #[trigger] oks.deep_view()[j]
                        == before.push((sv[i as int].path, spec_parse_one(sv[i as int])->Ok_0))[j]
                        by {}
                    assert(oks.deep_view() =~= before.push(
                        (sv[i as int].path, spec_parse_one(sv[i as int])->Ok_0),
                    ));
                    assert(spec_oks(sv.take(i + 1)) =~= oks.deep_view());
                    assert forall|j: int| 0 <= j < names@.len() implies #[trigger] names.deep_view()[j]
                        == spec_oks(sv.take(i + 1)).map_values(
                        |p: (Seq<char>, WorkflowV)| p.1.name,
                    )[j] by {
                        if j < names_before.len() {
                            assert(names.deep_view()[j] == names_before[j]);
                            assert(spec_oks(sv.take(i as int))[j] == spec_oks(sv.take(i + 1))[j]);
                        } else {
                            assert(names.deep_view()[j] == spec_parse_one(sv[i as int])->Ok_0.name);
                            assert(spec_oks(sv.take(i + 1))[j] == (sv[i as int].path,
                            spec_parse_one(sv[i as int])->Ok_0));
                        }
                    }
                    assert(names.deep_view().len() == names_before.len() + 1);
                    assert(names_before.len() == spec_oks(sv.take(i as int)).len());
                    assert(spec_oks(sv.take(i + 1)).len() == oks@.len());
                    assert(oks@.len() == before.len() + 1);
                    assert(before.len() == spec_oks(sv.take(i as int)).len());
                    assert(names.deep_view() =~= spec_oks(sv.take(i + 1)).map_values(
                        |p: (Seq<char>, WorkflowV)| p.1.name,
                    ));
                    assert(errors.deep_view() =~= spec_errors(sv.take(i + 1)));
                }
            },
            Err(e) => {
                let ghost ebefore = errors.deep_view();
                errors.push(e);
                proof {
                    assert forall|j: int| 0 <= j < errors@.len() implies #[trigger] errors.deep_view()[j]
                        == ebefore.push(spec_parse_one(sv[i as int])->Err_0)[j] by {}
                    assert(errors.deep_view() =~= ebefore.push(
                        spec_parse_one(sv[i as int])->Err_0,
                    ));
                    assert(spec_errors(sv.take(i + 1)) =~= errors.deep_view());
                    assert(spec_oks(sv.take(i + 1)) =~= spec_oks(sv.take(i as int)));
                    assert(names.deep_view() =~= spec_oks(sv.take(i + 1)).map_values(
                        |p: (Seq<char>, WorkflowV)| p.1.name,
                    ));
                }
            },
        }
        i = i + 1;
    }
    proof {
        assert(sv.take(sv.len() as int) =~= sv);
    }
    if errors.len() > 0 {
        return Err(CompileError::Manifests { errors, compiled: names });
    }
    match build_collection(&oks) {
        Ok(c) => Ok(c),
        Err(d) => Err(CompileError::Duplicate(d)),
    }
}

/// Validates the supplied source files: the parse errors of every
/// manifest candidate, in compilation order; empty when all parse.
pub fn validate(files: &Vec<SourceFile>) -> (r: Vec<FileError>)
    ensures
        r.deep_view() == spec_errors(spec_sort_files(spec_candidates(files.deep_view()))),
{
    let cands = candidates(files);
    let sorted = sort_files(&cands);
    let ghost sv = sorted.deep_view();
    let mut errors: Vec<FileError> = Vec::new();
    let mut i: usize = 0;
    proof {
        assert(sv.take(0) =~= Seq::<SourceFileV>::empty());
        assert(errors.deep_view() =~= spec_errors(sv.take(0)));
    }
    while i < sorted.len()
        invariant
            i <= sorted@.len(),
            sv == sorted.deep_view(),
            sv.len() == sorted@.len(),
            errors.deep_view() == spec_errors(sv.take(i as int)),
        decreases sorted@.len() - i,
    {
        proof {
            assert(sv.take(i + 1).drop_last() =~= sv.take(i as int));
            assert(sv.take(i + 1).last() == sv[i as int]);
            assert(sv[i as int] == sorted@[i as int].deep_view());
        }
        match parse_one(&sorted[i]) {
            Ok(_) => {
                proof {
                    assert(spec_errors(sv.take(i + 1)) =~= spec_errors(sv.take(i as int)));
                }
            },
            Err(e) => {
                let ghost ebefore = errors.deep_view();
                errors.push(e);
                proof {
                    assert forall|j: int| 0 <= j < errors@.len() implies #[trigger] errors.deep_view()[j]
                        == ebefore.push(spec_parse_one(sv[i as int])->Err_0)[j] by {}
                    assert(errors.deep_view() =~= ebefore.push(
                        spec_parse_one(sv[i as int])->Err_0,
                    ));
                    assert(spec_errors(sv.take(i + 1)) =~= errors.deep_view());
                }
            },
        }
        i = i + 1;
    }
    proof {
        assert(sv.take(sv.len() as int) =~= sv);
    }
    errors
}

} // verus!
