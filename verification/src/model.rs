//! The canonical workflow model: one normalized `Workflow` per manifest
//! file, aggregated into a `WorkflowCollection` together with the derived
//! search index and the deduplicated tag set.

use vstd::prelude::*;

verus! {

/// One named parameter a workflow accepts.
#[derive(Debug, Clone, PartialEq)]
pub struct WorkflowArgument {
    pub name: String,
    pub description: Option<String>,
    pub default_value: Option<String>,
    pub required: Option<bool>,
}

/// The canonical unit of the system. `slug` is derived from the source
/// file name alone and is unique across a collection; `name` defaults to
/// the slug and carries no uniqueness requirement.
#[derive(Debug, Clone, PartialEq)]
pub struct Workflow {
    pub name: String,
    pub command: String,
    pub description: Option<String>,
    pub tags: Option<Vec<String>>,
    pub arguments: Option<Vec<WorkflowArgument>>,
    pub source_url: Option<String>,
    pub author: Option<String>,
    pub author_url: Option<String>,
    pub shells: Option<Vec<String>>,
    pub slug: String,
}

/// The read-only projection of one workflow that the search index holds.
#[derive(Debug, Clone, PartialEq)]
pub struct SearchIndexEntry {
    pub slug: String,
    pub name: String,
    pub description: String,
    pub tags: Vec<String>,
    pub command: String,
    pub author: Option<String>,
    pub searchable_text: String,
}

/// Everything one compilation run produces: the ordered workflows, one
/// search entry per workflow, and the deduplicated union of all tags.
#[derive(Debug, Clone, PartialEq)]
pub struct WorkflowCollection {
    pub workflows: Vec<Workflow>,
    pub search_index: Vec<SearchIndexEntry>,
    pub tags: Vec<String>,
}

/// Mathematical form of `WorkflowArgument`.
pub struct WorkflowArgumentV {
    pub name: Seq<char>,
    pub description: Option<Seq<char>>,
    pub default_value: Option<Seq<char>>,
    pub required: Option<bool>,
}

/// Mathematical form of `Workflow`.
pub struct WorkflowV {
    pub name: Seq<char>,
    pub command: Seq<char>,
    pub description: Option<Seq<char>>,
    pub tags: Option<Seq<Seq<char>>>,
    pub arguments: Option<Seq<WorkflowArgumentV>>,
    pub source_url: Option<Seq<char>>,
    pub author: Option<Seq<char>>,
    pub author_url: Option<Seq<char>>,
    pub shells: Option<Seq<Seq<char>>>,
    pub slug: Seq<char>,
}

/// Mathematical form of `SearchIndexEntry`.
pub struct SearchIndexEntryV {
    pub slug: Seq<char>,
    pub name: Seq<char>,
    pub description: Seq<char>,
    pub tags: Seq<Seq<char>>,
    pub command: Seq<char>,
    pub author: Option<Seq<char>>,
    pub searchable_text: Seq<char>,
}

/// Mathematical form of `WorkflowCollection`.
pub struct WorkflowCollectionV {
    pub workflows: Seq<WorkflowV>,
    pub search_index: Seq<SearchIndexEntryV>,
    pub tags: Seq<Seq<char>>,
}

impl DeepView for WorkflowArgument {
    type V = WorkflowArgumentV;

    open spec fn deep_view(&self) -> WorkflowArgumentV {
        WorkflowArgumentV {
            name: self.name.deep_view(),
            description: self.description.deep_view(),
            default_value: self.default_value.deep_view(),
            required: self.required,
        }
    }
}

impl DeepView for Workflow {
    type V = WorkflowV;

    open spec fn deep_view(&self) -> WorkflowV {
        WorkflowV {
            name: self.name.deep_view(),
            command: self.command.deep_view(),
            description: self.description.deep_view(),
            tags: self.tags.deep_view(),
            arguments: self.arguments.deep_view(),
            source_url: self.source_url.deep_view(),
            author: self.author.deep_view(),
            author_url: self.author_url.deep_view(),
            shells: self.shells.deep_view(),
            slug: self.slug.deep_view(),
        }
    }
}

impl DeepView for SearchIndexEntry {
    type V = SearchIndexEntryV;

    open spec fn deep_view(&self) -> SearchIndexEntryV {
        SearchIndexEntryV {
            slug: self.slug.deep_view(),
            name: self.name.deep_view(),
            description: self.description.deep_view(),
            tags: self.tags.deep_view(),
            command: self.command.deep_view(),
            author: self.author.deep_view(),
            searchable_text: self.searchable_text.deep_view(),
        }
    }
}

impl DeepView for WorkflowCollection {
    type V = WorkflowCollectionV;

    open spec fn deep_view(&self) -> WorkflowCollectionV {
        WorkflowCollectionV {
            workflows: self.workflows.deep_view(),
            search_index: self.search_index.deep_view(),
            tags: self.tags.deep_view(),
        }
    }
}

/// Copies a string vector; the copy holds equal strings in the same order.
pub fn clone_strings(v: &Vec<String>) -> (r: Vec<String>)
    ensures
        r@ == v@,
        r.deep_view() == v.deep_view(),
{
    let mut r: Vec<String> = Vec::new();
    let mut i: usize = 0;
    while i < v.len()
        invariant
            i <= v@.len(),
            r@ == v@.take(i as int),
        decreases v@.len() - i,
    {
        r.push(v[i].clone());
        proof {
            assert(r@ =~= v@.take(i + 1 as int));
        }
        i = i + 1;
    }
    proof {
        assert(r@ =~= v@);
        assert(r.deep_view() =~= v.deep_view());
    }
    r
}

/// Copies an optional string.
pub fn clone_opt_string(v: &Option<String>) -> (r: Option<String>)
    ensures
        r == v,
{
    match v {
        Some(s) => Some(s.clone()),
        None => None,
    }
}

impl WorkflowArgument {
    /// An exact copy: the copy's mathematical form equals the original's.
    pub fn duplicate(&self) -> (r: WorkflowArgument)
        ensures
            r.deep_view() == self.deep_view(),
    {
        WorkflowArgument {
            name: self.name.clone(),
            description: clone_opt_string(&self.description),
            default_value: clone_opt_string(&self.default_value),
            required: self.required,
        }
    }
}

/// Copies an argument vector; the copy's mathematical form is unchanged.
pub fn clone_arguments(v: &Vec<WorkflowArgument>) -> (r: Vec<WorkflowArgument>)
    ensures
        r.deep_view() == v.deep_view(),
{
    let mut r: Vec<WorkflowArgument> = Vec::new();
    let mut i: usize = 0;
    while i < v.len()
        invariant
            i <= v@.len(),
            r@.len() == i,
            forall|j: int| 0 <= j < i ==> #[trigger] r@[j].deep_view() == v@[j].deep_view(),
        decreases v@.len() - i,
    {
        let ghost prev = r@;
        r.push(v[i].duplicate());
        proof {
            assert(forall|j: int| 0 <= j < i ==> r@[j] == prev[j]);
        }
        i = i + 1;
    }
    proof {
        assert forall|j: int| 0 <= j < v@.len() implies r.deep_view()[j] == v.deep_view()[j] by {
            assert(r@[j].deep_view() == v@[j].deep_view());
        }
        assert(r.deep_view() =~= v.deep_view());
    }
    r
}

impl Workflow {
    /// An exact copy: the copy's mathematical form equals the original's.
    pub fn duplicate(&self) -> (r: Workflow)
        ensures
            r.deep_view() == self.deep_view(),
    {
        Workflow {
            name: self.name.clone(),
            command: self.command.clone(),
            description: clone_opt_string(&self.description),
            tags: match &self.tags {
                Some(t) => Some(clone_strings(t)),
                None => None,
            },
            arguments: match &self.arguments {
                Some(a) => Some(clone_arguments(a)),
                None => None,
            },
            source_url: clone_opt_string(&self.source_url),
            author: clone_opt_string(&self.author),
            author_url: clone_opt_string(&self.author_url),
            shells: match &self.shells {
                Some(s) => Some(clone_strings(s)),
                None => None,
            },
            slug: self.slug.clone(),
        }
    }
}

} // verus!
