//! The collection builder: aggregates normalized workflows into a
//! `WorkflowCollection`, failing on slug collisions, and the query
//! functions a downstream consumer is promised.

use vstd::prelude::*;

use crate::model::{
    SearchIndexEntryV, Workflow, WorkflowCollection, WorkflowCollectionV, WorkflowV,
};
use crate::search::{lower_of, lowercase, opt_or_no_strings, spec_search_entry};
use crate::text::{is_substring, str_contains, str_eq};

verus! {

/// The compile-time failure of a whole run: two source files normalized to
/// the same slug. Both offending paths are named.
#[derive(Debug, Clone, PartialEq)]
pub struct DuplicateSlug {
    pub slug: String,
    pub first_path: String,
    pub second_path: String,
}

/// Mathematical form of `DuplicateSlug`.
pub struct DuplicateSlugV {
    pub slug: Seq<char>,
    pub first_path: Seq<char>,
    pub second_path: Seq<char>,
}

impl DeepView for DuplicateSlug {
    type V = DuplicateSlugV;

    open spec fn deep_view(&self) -> DuplicateSlugV {
        DuplicateSlugV {
            slug: self.slug.deep_view(),
            first_path: self.first_path.deep_view(),
            second_path: self.second_path.deep_view(),
        }
    }
}

/// `acc` extended by the elements of `ts` it does not hold yet, in order of
/// first occurrence.
pub open spec fn add_unique(acc: Seq<Seq<char>>, ts: Seq<Seq<char>>) -> Seq<Seq<char>>
    decreases ts.len(),
{
    if ts.len() == 0 {
        acc
    } else {
        add_unique(
            if acc.contains(ts[0]) {
                acc
            } else {
                acc.push(ts[0])
            },
            ts.drop_first(),
        )
    }
}

/// The tag accumulator after folding the tags of every workflow of `ws`
/// into `acc`.
pub open spec fn union_acc(ws: Seq<WorkflowV>, acc: Seq<Seq<char>>) -> Seq<Seq<char>>
    decreases ws.len(),
{
    if ws.len() == 0 {
        acc
    } else {
        union_acc(ws.drop_first(), add_unique(acc, opt_or_no_strings(ws[0].tags)))
    }
}

/// The deduplicated union of every workflow's tags, ordered by first
/// occurrence over the workflow order.
pub open spec fn spec_tags_union(ws: Seq<WorkflowV>) -> Seq<Seq<char>> {
    union_acc(ws, Seq::empty())
}

/// The smallest index `j >= from` whose workflow carries slug `slug`.
pub open spec fn first_with_slug(
    items: Seq<(Seq<char>, WorkflowV)>,
    slug: Seq<char>,
    from: int,
) -> Option<int>
    decreases items.len() - from,
{
    if from < 0 || from >= items.len() {
        None
    } else if items[from].1.slug == slug {
        Some(from)
    } else {
        first_with_slug(items, slug, from + 1)
    }
}

/// The first slug collision at or after position `k`: scanning `k`
/// upward, the earliest `j < k` sharing `items[k]`'s slug.
pub open spec fn first_dup_from(items: Seq<(Seq<char>, WorkflowV)>, k: int) -> Option<(int, int)>
    decreases items.len() - k,
{
    if k < 0 || k >= items.len() {
        None
    } else {
        let m = first_with_slug(items, items[k].1.slug, 0);
        if m is Some && m.unwrap() < k {
            Some((m.unwrap(), k))
        } else {
            first_dup_from(items, k + 1)
        }
    }
}

/// The first slug collision of the run, if any.
pub open spec fn spec_first_dup(items: Seq<(Seq<char>, WorkflowV)>) -> Option<(int, int)> {
    first_dup_from(items, 0)
}

/// The error a detected collision yields: the shared slug and both paths.
pub open spec fn spec_dup_error(items: Seq<(Seq<char>, WorkflowV)>) -> DuplicateSlugV
    recommends
        spec_first_dup(items) is Some,
{
    let jk = spec_first_dup(items).unwrap();
    DuplicateSlugV {
        slug: items[jk.1].1.slug,
        first_path: items[jk.0].0,
        second_path: items[jk.1].0,
    }
}

/// All slugs of `ws` are pairwise distinct.
pub open spec fn slugs_distinct(ws: Seq<WorkflowV>) -> bool {
    forall|i: int, j: int|
        0 <= i < j < ws.len() ==> #[trigger] ws[i].slug != #[trigger] ws[j].slug
}

/// The collection a sequence of (source path, workflow) pairs builds:
/// a `DuplicateSlug` error naming the first colliding pair, or the
/// workflows in order with their search index and tag union.
pub open spec fn spec_build(items: Seq<(Seq<char>, WorkflowV)>) -> Result<
    WorkflowCollectionV,
    DuplicateSlugV,
> {
    let ws = items.map_values(|p: (Seq<char>, WorkflowV)| p.1);
    match spec_first_dup(items) {
        Some(jk) => Err(spec_dup_error(items)),
        None => Ok(
            WorkflowCollectionV {
                workflows: ws,
                search_index: ws.map_values(|w: WorkflowV| spec_search_entry(w)),
                tags: spec_tags_union(ws),
            },
        ),
    }
}

/// Internal consistency of a built collection: one search entry per
/// workflow in order, the tag union, and pairwise-distinct slugs.
pub open spec fn collection_wf(c: WorkflowCollectionV) -> bool {
    &&& c.search_index == c.workflows.map_values(|w: WorkflowV| spec_search_entry(w))
    &&& c.tags == spec_tags_union(c.workflows)
    &&& slugs_distinct(c.workflows)
}

proof fn lemma_first_with_slug_props(items: Seq<(Seq<char>, WorkflowV)>, slug: Seq<char>, from: int)
    requires
        0 <= from <= items.len(),
    ensures
        match first_with_slug(items, slug, from) {
            Some(j) => from <= j < items.len() && items[j].1.slug == slug && forall|j0: int|
                from <= j0 < j ==> #[trigger] items[j0].1.slug != slug,
            None => forall|j0: int| from <= j0 < items.len() ==> #[trigger] items[j0].1.slug != slug,
        },
    decreases items.len() - from,
{
    if from < items.len() && items[from].1.slug != slug {
        lemma_first_with_slug_props(items, slug, from + 1);
    }
}

proof fn lemma_first_dup_from_props(items: Seq<(Seq<char>, WorkflowV)>, k: int)
    requires
        0 <= k <= items.len(),
        forall|i: int, j: int|
            0 <= i < j < k ==> #[trigger] items[i].1.slug != #[trigger] items[j].1.slug,
    ensures
        match first_dup_from(items, k) {
            Some(jk) => 0 <= jk.0 < jk.1 < items.len() && items[jk.0].1.slug == items[jk.1].1.slug,
            None => forall|i: int, j: int|
                0 <= i < j < items.len() ==> #[trigger] items[i].1.slug
                    != #[trigger] items[j].1.slug,
        },
    decreases items.len() - k,
{
    if k < items.len() {
        lemma_first_with_slug_props(items, items[k].1.slug, 0);
        let m = first_with_slug(items, items[k].1.slug, 0);
        if m is Some && m.unwrap() < k {
        } else {
            assert forall|i: int, j: int| 0 <= i < j < k + 1 implies #[trigger] items[i].1.slug
                != #[trigger] items[j].1.slug by {
                if j == k {
                    if m is None {
                    } else {
                        assert(items[m.unwrap()].1.slug == items[k].1.slug);
                    }
                }
            }
            lemma_first_dup_from_props(items, k + 1);
        }
    }
}

/// A successful build has pairwise-distinct slugs; a failed one names a
/// real collision.
pub proof fn lemma_build_cases(items: Seq<(Seq<char>, WorkflowV)>)
    ensures
        match spec_build(items) {
            Ok(c) => collection_wf(c) && c.workflows == items.map_values(
                |p: (Seq<char>, WorkflowV)| p.1,
            ),
            Err(d) => exists|i: int, j: int|
                0 <= i < j < items.len() && #[trigger] items[i].1.slug == #[trigger] items[j].1.slug
                    && d.first_path == items[i].0 && d.second_path == items[j].0 && d.slug
                    == items[j].1.slug,
        },
{
    lemma_first_dup_from_props(items, 0);
    let ws = items.map_values(|p: (Seq<char>, WorkflowV)| p.1);
    match spec_first_dup(items) {
        Some(jk) => {
            assert(0 <= jk.0 < jk.1 < items.len() && items[jk.0].1.slug == items[jk.1].1.slug);
        },
        None => {
            assert forall|i: int, j: int| 0 <= i < j < ws.len() implies #[trigger] ws[i].slug
                != #[trigger] ws[j].slug by {
                assert(ws[i] == items[i].1);
                assert(ws[j] == items[j].1);
            }
        },
    }
}

/// Decides whether `v` holds the string `s`.
fn contains_string(v: &Vec<String>, s: &str) -> (r: bool)
    ensures
        r == v.deep_view().contains(s@),
{
    let mut i: usize = 0;
    while i < v.len()
        invariant
            i <= v@.len(),
            forall|j: int| 0 <= j < i ==> v.deep_view()[j] != s@,
        decreases v@.len() - i,
    {
        if str_eq(v[i].as_str(), s) {
            proof {
                assert(v.deep_view()[i as int] == s@);
            }
            return true;
        }
        proof {
            assert(v.deep_view()[i as int] == v@[i as int]@);
        }
        i = i + 1;
    }
    proof {
        assert(forall|j: int| 0 <= j < v.deep_view().len() ==> v.deep_view()[j] != s@);
    }
    false
}

fn add_unique_exec(acc: &mut Vec<String>, ts: &Vec<String>)
    ensures
        final(acc).deep_view() == add_unique(old(acc).deep_view(), ts.deep_view()),
{
    let ghost tsv = ts.deep_view();
    let mut i: usize = 0;
    proof {
        assert(tsv.skip(0) =~= tsv);
    }
    while i < ts.len()
        invariant
            i <= ts@.len(),
            tsv == ts.deep_view(),
            tsv.len() == ts@.len(),
            add_unique(old(acc).deep_view(), tsv) == add_unique(acc.deep_view(), tsv.skip(i as int)),
        decreases ts@.len() - i,
    {
        proof {
            assert(tsv.skip(i as int)[0] == tsv[i as int]);
            assert(tsv.skip(i as int).drop_first() =~= tsv.skip(i + 1 as int));
            assert(tsv[i as int] == ts@[i as int]@);
        }
        let ghost before = acc.deep_view();
        if !contains_string(acc, ts[i].as_str()) {
            let ghost prev = acc@;
            acc.push(ts[i].clone());
            proof {
                assert forall|j: int| 0 <= j < acc@.len() implies #[trigger] acc.deep_view()[j]
                    == before.push(tsv[i as int])[j] by {
                    if j < prev.len() {
                        assert(acc@[j] == prev[j]);
                    }
                }
                assert(acc.deep_view() =~= before.push(tsv[i as int]));
            }
        }
        i = i + 1;
    }
    proof {
        assert(tsv.skip(tsv.len() as int) =~= Seq::<Seq<char>>::empty());
    }
}

/// Folds every workflow's tags into the deduplicated union, in order of
/// first occurrence.
pub fn tags_union(ws: &Vec<Workflow>) -> (r: Vec<String>)
    ensures
        r.deep_view() == spec_tags_union(ws.deep_view()),
{
    let ghost wsv = ws.deep_view();
    let mut acc: Vec<String> = Vec::new();
    let mut i: usize = 0;
    proof {
        assert(wsv.skip(0) =~= wsv);
        assert(acc.deep_view() =~= Seq::<Seq<char>>::empty());
    }
    while i < ws.len()
        invariant
            i <= ws@.len(),
            wsv == ws.deep_view(),
            wsv.len() == ws@.len(),
            spec_tags_union(wsv) == union_acc(wsv.skip(i as int), acc.deep_view()),
        decreases ws@.len() - i,
    {
        proof {
            assert(wsv.skip(i as int)[0] == wsv[i as int]);
            assert(wsv.skip(i as int).drop_first() =~= wsv.skip(i + 1 as int));
            assert(wsv[i as int] == ws@[i as int].deep_view());
        }
        match &ws[i].tags {
            Some(ts) => {
                add_unique_exec(&mut acc, ts);
            },
            None => {
                proof {
                    assert(opt_or_no_strings(wsv[i as int].tags) =~= Seq::<Seq<char>>::empty());
                }
            },
        }
        i = i + 1;
    }
    proof {
        assert(wsv.skip(wsv.len() as int) =~= Seq::<WorkflowV>::empty());
    }
    acc
}

fn find_duplicate(items: &Vec<(String, Workflow)>) -> (r: Option<DuplicateSlug>)
    ensures
        match r {
            Some(d) => spec_first_dup(items.deep_view()) is Some && d.deep_view()
                == spec_dup_error(items.deep_view()),
            None => spec_first_dup(items.deep_view()) is None,
        },
{
    let ghost dv = items.deep_view();
    let mut k: usize = 0;
    while k < items.len()
        invariant
            k <= items@.len(),
            dv == items.deep_view(),
            dv.len() == items@.len(),
            spec_first_dup(dv) == first_dup_from(dv, k as int),
        decreases items@.len() - k,
    {
        proof {
            assert(dv[k as int] == (items@[k as int].0@, items@[k as int].1.deep_view()));
        }
        let mut j: usize = 0;
        while j < k
            invariant
                j <= k < items@.len(),
                dv == items.deep_view(),
                dv.len() == items@.len(),
                spec_first_dup(dv) == first_dup_from(dv, k as int),
                first_with_slug(dv, dv[k as int].1.slug, 0) == first_with_slug(
                    dv,
                    dv[k as int].1.slug,
                    j as int,
                ),
                dv[k as int].1.slug == items@[k as int].1.deep_view().slug,
            decreases k - j,
        {
            proof {
                assert(dv[j as int] == (items@[j as int].0@, items@[j as int].1.deep_view()));
            }
            if str_eq(items[j].1.slug.as_str(), items[k].1.slug.as_str()) {
                proof {
                    assert(dv[j as int].1.slug == dv[k as int].1.slug);
                    assert(first_with_slug(dv, dv[k as int].1.slug, j as int) == Some(j as int));
                    assert(first_dup_from(dv, k as int) == Some((j as int, k as int)));
                    assert(spec_first_dup(dv) == Some((j as int, k as int)));
                }
                let d = DuplicateSlug {
                    slug: items[k].1.slug.clone(),
                    first_path: items[j].0.clone(),
                    second_path: items[k].0.clone(),
                };
                proof {
                    assert(d.deep_view().slug == dv[k as int].1.slug);
                    assert(d.deep_view().first_path == dv[j as int].0);
                    assert(d.deep_view().second_path == dv[k as int].0);
                }
                return Some(d);
            }
            j = j + 1;
        }
        proof {
            assert(first_with_slug(dv, dv[k as int].1.slug, k as int) == Some(k as int));
        }
        k = k + 1;
    }
    None
}

impl WorkflowCollection {
    /// The first workflow carrying `slug`, if any; under the collection
    /// invariant it is the only one.
    pub open spec fn spec_get_by_slug(ws: Seq<WorkflowV>, slug: Seq<char>) -> Option<WorkflowV>
        decreases ws.len(),
    {
        if ws.len() == 0 {
            None
        } else if ws[0].slug == slug {
            Some(ws[0])
        } else {
            Self::spec_get_by_slug(ws.drop_first(), slug)
        }
    }

    /// The workflows whose tag list holds `tag`, in collection order.
    pub open spec fn spec_by_tag(ws: Seq<WorkflowV>, tag: Seq<char>) -> Seq<WorkflowV>
        decreases ws.len(),
    {
        if ws.len() == 0 {
            Seq::empty()
        } else {
            Self::spec_by_tag(ws.drop_last(), tag) + if opt_or_no_strings(
                ws.last().tags,
            ).contains(tag) {
                seq![ws.last()]
            } else {
                Seq::empty()
            }
        }
    }

    /// The workflows whose searchable text holds the case-folded query as
    /// a substring, in collection order. The first `n` workflows are
    /// considered.
    pub open spec fn spec_search_upto(c: WorkflowCollectionV, q: Seq<char>, n: int) -> Seq<
        WorkflowV,
    >
        decreases n,
    {
        if n <= 0 {
            Seq::empty()
        } else {
            Self::spec_search_upto(c, q, n - 1) + if is_substring(
                lower_of(q),
                c.search_index[n - 1].searchable_text,
            ) {
                seq![c.workflows[n - 1]]
            } else {
                Seq::empty()
            }
        }
    }

    /// All workflows matching the query, in collection order.
    pub open spec fn spec_search(c: WorkflowCollectionV, q: Seq<char>) -> Seq<WorkflowV> {
        Self::spec_search_upto(c, q, c.workflows.len() as int)
    }

    /// Looks a workflow up by its slug: the first (under the collection
    /// invariant, the only) workflow whose slug equals `slug` exactly.
    pub fn get_workflow_by_slug(&self, slug: &str) -> (r: Option<Workflow>)
        ensures
            match r {
                Some(w) => Self::spec_get_by_slug(self.workflows.deep_view(), slug@) == Some(
                    w.deep_view(),
                ),
                None => Self::spec_get_by_slug(self.workflows.deep_view(), slug@) is None,
            },
    {
        let ghost dv = self.workflows.deep_view();
        let mut i: usize = 0;
        proof {
            assert(dv.skip(0) =~= dv);
        }
        while i < self.workflows.len()
            invariant
                i <= self.workflows@.len(),
                dv == self.workflows.deep_view(),
                dv.len() == self.workflows@.len(),
                Self::spec_get_by_slug(dv, slug@) == Self::spec_get_by_slug(
                    dv.skip(i as int),
                    slug@,
                ),
            decreases self.workflows@.len() - i,
        {
            proof {
                assert(dv.skip(i as int)[0] == dv[i as int]);
                assert(dv.skip(i as int).drop_first() =~= dv.skip(i + 1 as int));
                assert(dv[i as int] == self.workflows@[i as int].deep_view());
            }
            if str_eq(self.workflows[i].slug.as_str(), slug) {
                return Some(self.workflows[i].duplicate());
            }
            i = i + 1;
        }
        proof {
            assert(dv.skip(dv.len() as int) =~= Seq::<WorkflowV>::empty());
        }
        None
    }

    /// All workflows whose tag list holds `tag`, in collection order.
    pub fn get_workflows_by_tag(&self, tag: &str) -> (r: Vec<Workflow>)
        ensures
            r.deep_view() == Self::spec_by_tag(self.workflows.deep_view(), tag@),
    {
        let ghost dv = self.workflows.deep_view();
        let mut out: Vec<Workflow> = Vec::new();
        let mut i: usize = 0;
        proof {
            assert(dv.take(0) =~= Seq::<WorkflowV>::empty());
            assert(out.deep_view() =~= Self::spec_by_tag(dv.take(0), tag@));
        }
        while i < self.workflows.len()
            invariant
                i <= self.workflows@.len(),
                dv == self.workflows.deep_view(),
                dv.len() == self.workflows@.len(),
                out.deep_view() == Self::spec_by_tag(dv.take(i as int), tag@),
            decreases self.workflows@.len() - i,
        {
            proof {
                assert(dv.take(i + 1).drop_last() =~= dv.take(i as int));
                assert(dv.take(i + 1).last() == dv[i as int]);
                assert(dv[i as int] == self.workflows@[i as int].deep_view());
            }
            let has = match &self.workflows[i].tags {
                Some(ts) => contains_string(ts, tag),
                None => false,
            };
            proof {
                if self.workflows@[i as int].tags is None {
                    assert(opt_or_no_strings(dv[i as int].tags) =~= Seq::<Seq<char>>::empty());
                    assert(!opt_or_no_strings(dv[i as int].tags).contains(tag@));
                }
            }
            if has {
                let ghost before = out.deep_view();
                out.push(self.workflows[i].duplicate());
                proof {
                    let ghost prev_len = before.len();
                    assert forall|j: int| 0 <= j < out@.len() implies #[trigger] out.deep_view()[j]
                        == before.push(dv[i as int])[j] by {}
                    assert(out.deep_view() =~= before.push(dv[i as int]));
                    assert(Self::spec_by_tag(dv.take(i + 1), tag@) =~= before.push(dv[i as int]));
                }
            }
            i = i + 1;
        }
        proof {
            assert(dv.take(dv.len() as int) =~= dv);
        }
        out
    }

    /// All workflows whose searchable text holds the case-folded query as
    /// a substring: exactly those, in collection order.
    pub fn search_workflows(&self, query: &str) -> (r: Vec<Workflow>)
        requires
            self.search_index@.len() == self.workflows@.len(),
        ensures
            r.deep_view() == Self::spec_search(self.deep_view(), query@),
    {
        let folded = lowercase(query);
        let ghost cv = self.deep_view();
        let mut out: Vec<Workflow> = Vec::new();
        let mut i: usize = 0;
        proof {
            assert(out.deep_view() =~= Self::spec_search_upto(cv, query@, 0));
        }
        while i < self.workflows.len()
            invariant
                i <= self.workflows@.len(),
                cv == self.deep_view(),
                cv.workflows.len() == self.workflows@.len(),
                cv.search_index.len() == self.workflows@.len(),
                folded@ == lower_of(query@),
                out.deep_view() == Self::spec_search_upto(cv, query@, i as int),
            decreases self.workflows@.len() - i,
        {
            proof {
                assert(cv.search_index[i as int] == self.search_index@[i as int].deep_view());
                assert(cv.workflows[i as int] == self.workflows@[i as int].deep_view());
            }
            if str_contains(self.search_index[i].searchable_text.as_str(), folded.as_str()) {
                let ghost before = out.deep_view();
                out.push(self.workflows[i].duplicate());
                proof {
                    assert forall|j: int| 0 <= j < out@.len() implies #[trigger] out.deep_view()[j]
                        == before.push(cv.workflows[i as int])[j] by {}
                    assert(out.deep_view() =~= before.push(cv.workflows[i as int]));
                    assert(Self::spec_search_upto(cv, query@, i + 1) =~= before.push(
                        cv.workflows[i as int],
                    ));
                }
            } else {
                proof {
                    assert(Self::spec_search_upto(cv, query@, i + 1) =~= Self::spec_search_upto(
                        cv,
                        query@,
                        i as int,
                    ));
                }
            }
            i = i + 1;
        }
        out
    }
}

/// Builds the collection from the ordered (source path, workflow) pairs:
/// fails on the first slug collision, naming both offending paths, else
/// aggregates workflows, search index and tag union.
pub fn build_collection(items: &Vec<(String, Workflow)>) -> (r: Result<
    WorkflowCollection,
    DuplicateSlug,
>)
    ensures
        match r {
            Ok(c) => spec_build(items.deep_view()) == Ok::<WorkflowCollectionV, DuplicateSlugV>(
                c.deep_view(),
            ) && collection_wf(c.deep_view()),
            Err(d) => spec_build(items.deep_view()) == Err::<WorkflowCollectionV, DuplicateSlugV>(
                d.deep_view(),
            ),
        },
{
    let ghost dv = items.deep_view();
    proof {
        lemma_build_cases(dv);
    }
    if let Some(d) = find_duplicate(items) {
        return Err(d);
    }
    let ghost wsv = dv.map_values(|p: (Seq<char>, WorkflowV)| p.1);
    let mut ws: Vec<Workflow> = Vec::new();
    let mut i: usize = 0;
    while i < items.len()
        invariant
            i <= items@.len(),
            dv == items.deep_view(),
            dv.len() == items@.len(),
            wsv == dv.map_values(|p: (Seq<char>, WorkflowV)| p.1),
            ws@.len() == i,
            forall|j: int| 0 <= j < i ==> #[trigger] ws@[j].deep_view() == wsv[j],
        decreases items@.len() - i,
    {
        let ghost prev = ws@;
        ws.push(items[i].1.duplicate());
        proof {
            assert(dv[i as int] == (items@[i as int].0@, items@[i as int].1.deep_view()));
            assert(forall|j: int| 0 <= j < i ==> ws@[j] == prev[j]);
        }
        i = i + 1;
    }
    proof {
        assert forall|j: int| 0 <= j < wsv.len() implies ws.deep_view()[j] == wsv[j] by {
            assert(ws@[j].deep_view() == wsv[j]);
        }
        assert(ws.deep_view() =~= wsv);
    }
    let ghost ev = wsv.map_values(|w: WorkflowV| spec_search_entry(w));
    let mut entries: Vec<crate::model::SearchIndexEntry> = Vec::new();
    let mut i: usize = 0;
    while i < ws.len()
        invariant
            i <= ws@.len(),
            ws.deep_view() == wsv,
            ws@.len() == wsv.len(),
            ev == wsv.map_values(|w: WorkflowV| spec_search_entry(w)),
            entries@.len() == i,
            forall|j: int| 0 <= j < i ==> #[trigger] entries@[j].deep_view() == ev[j],
        decreases ws@.len() - i,
    {
        let ghost prev = entries@;
        entries.push(ws[i].to_search_entry());
        proof {
            assert(ws@[i as int].deep_view() == wsv[i as int]);
            assert(forall|j: int| 0 <= j < i ==> entries@[j] == prev[j]);
        }
        i = i + 1;
    }
    proof {
        assert forall|j: int| 0 <= j < ev.len() implies entries.deep_view()[j] == ev[j] by {
            assert(entries@[j].deep_view() == ev[j]);
        }
        assert(entries.deep_view() =~= ev);
    }
    let tags = tags_union(&ws);
    let c = WorkflowCollection { workflows: ws, search_index: entries, tags };
    Ok(c)
}

} // verus!
