//! The search indexer: the pure projection of a `Workflow` into its
//! `SearchIndexEntry`, and the collection-level query functions.

use vstd::prelude::*;

use crate::model::{SearchIndexEntry, SearchIndexEntryV, Workflow, WorkflowCollection, WorkflowV};
use crate::text::{is_substring, join_space, push_str_chars, spec_join_space, str_contains, string_from_chars};

verus! {

/// An optional string, defaulted to the empty string.
pub open spec fn opt_or_empty(o: Option<Seq<char>>) -> Seq<char> {
    match o {
        Some(s) => s,
        None => Seq::empty(),
    }
}

/// An optional string sequence, defaulted to the empty sequence.
pub open spec fn opt_or_no_strings(o: Option<Seq<Seq<char>>>) -> Seq<Seq<char>> {
    match o {
        Some(s) => s,
        None => Seq::empty(),
    }
}

/// The text a workflow is searched by, before case folding: name,
/// description, space-joined tags, command and author — each defaulted to
/// empty when absent — joined by single spaces in that fixed order.
pub open spec fn spec_search_source(w: WorkflowV) -> Seq<char> {
    w.name + seq![' '] + opt_or_empty(w.description) + seq![' '] + spec_join_space(
        opt_or_no_strings(w.tags),
    ) + seq![' '] + w.command + seq![' '] + opt_or_empty(w.author)
}

/// The result of Unicode case folding as `str::to_lowercase` performs it,
/// named rather than spelled out: it depends on the characters alone.
pub uninterp spec fn lower_of(s: Seq<char>) -> Seq<char>;

/// Relies on `str::to_lowercase`: the result depends on the characters
/// alone; `lower_of` names that function.
#[verifier::external_body]
pub(crate) fn lowercase(s: &str) -> (r: String)
    ensures
        r@ == lower_of(s@),
{
    s.to_lowercase()
}

/// The search entry derived from a workflow: its indexable fields with
/// emptiness defaults applied, and the case-folded searchable text.
pub open spec fn spec_search_entry(w: WorkflowV) -> SearchIndexEntryV {
    SearchIndexEntryV {
        slug: w.slug,
        name: w.name,
        description: opt_or_empty(w.description),
        tags: opt_or_no_strings(w.tags),
        command: w.command,
        author: w.author,
        searchable_text: lower_of(spec_search_source(w)),
    }
}

impl Workflow {
    /// Projects this workflow into its search-index entry.
    pub fn to_search_entry(&self) -> (r: SearchIndexEntry)
        ensures
            r.deep_view() == spec_search_entry(self.deep_view()),
    {
        let tags: Vec<String> = match &self.tags {
            Some(t) => crate::model::clone_strings(t),
            None => Vec::new(),
        };
        let description: String = match &self.description {
            Some(d) => d.clone(),
            None => String::new(),
        };
        let author_text: String = match &self.author {
            Some(a) => a.clone(),
            None => String::new(),
        };
        let mut source: Vec<char> = Vec::new();
        push_str_chars(&mut source, self.name.as_str());
        source.push(' ');
        push_str_chars(&mut source, description.as_str());
        source.push(' ');
        let mut joined = join_space(&tags);
        source.append(&mut joined);
        source.push(' ');
        push_str_chars(&mut source, self.command.as_str());
        source.push(' ');
        push_str_chars(&mut source, author_text.as_str());
        proof {
            assert(source@ =~= spec_search_source(self.deep_view()));
        }
        let source_text = string_from_chars(&source);
        let searchable_text = lowercase(source_text.as_str());
        let r = SearchIndexEntry {
            slug: self.slug.clone(),
            name: self.name.clone(),
            description,
            tags,
            command: self.command.clone(),
            author: crate::model::clone_opt_string(&self.author),
            searchable_text,
        };
        proof {
            assert(r.deep_view().tags =~= spec_search_entry(self.deep_view()).tags);
        }
        r
    }
}

} // verus!
