//! Laws of the compiler, stated and proved over the same spec functions
//! its contracts use: determinism of compilation and emission, order
//! independence, slug round-trips, search exactness, duplicate rejection,
//! tag-union exactness and per-file error isolation.

use vstd::prelude::*;

use crate::collection::{
    add_unique, collection_wf, lemma_build_cases, slugs_distinct, spec_build, spec_tags_union,
    union_acc,
};
use crate::compile::{
    file_le_fn, lemma_file_le_total_ordering, spec_candidates, spec_compile, spec_errors, spec_oks,
    spec_parse_one, spec_sort_files, CompileErrorV, SourceFileV,
};
use crate::emit::{spec_data_artifact, spec_index_artifact};
use crate::model::{WorkflowCollectionV, WorkflowV};
use crate::extract::RawWorkflowV;
use crate::normalize::spec_normalize;
use crate::search::{lower_of, opt_or_no_strings};
use crate::text::{fold_char, is_digit, is_lower, is_substring, is_word_char, slug_from, spec_slug};
use crate::model::WorkflowCollection;
use vstd::seq_lib::{
    group_to_multiset_ensures, lemma_multiset_commutative, lemma_seq_concat_contains_all_elements,
    lemma_sorted_unique,
};

verus! {

/// Law: compilation is a function of the input file set alone, and so are
/// the emitted artifacts — two runs over the same files yield the same
/// result and byte-identical artifact text.
pub proof fn lemma_compile_idempotent(
    files: Seq<SourceFileV>,
    r1: Result<WorkflowCollectionV, CompileErrorV>,
    r2: Result<WorkflowCollectionV, CompileErrorV>,
)
    requires
        r1 == spec_compile(files),
        r2 == spec_compile(files),
    ensures
        r1 == r2,
        r1 is Ok ==> spec_data_artifact(r1->Ok_0) == spec_data_artifact(r2->Ok_0),
        r1 is Ok ==> spec_index_artifact(r1->Ok_0) == spec_index_artifact(r2->Ok_0),
{
}

proof fn lemma_candidates_append(a: Seq<SourceFileV>, b: Seq<SourceFileV>)
    ensures
        spec_candidates(a + b) == spec_candidates(a) + spec_candidates(b),
    decreases b.len(),
{
    if b.len() == 0 {
        assert(a + b =~= a);
        assert(spec_candidates(b) =~= Seq::<SourceFileV>::empty());
        assert(spec_candidates(a) + spec_candidates(b) =~= spec_candidates(a));
    } else {
        assert((a + b).drop_last() =~= a + b.drop_last());
        assert((a + b).last() == b.last());
        lemma_candidates_append(a, b.drop_last());
        assert(spec_candidates(a + b) =~= spec_candidates(a) + spec_candidates(b));
    }
}

proof fn lemma_candidates_multiset(f1: Seq<SourceFileV>, f2: Seq<SourceFileV>)
    requires
        f1.to_multiset() == f2.to_multiset(),
    ensures
        spec_candidates(f1).to_multiset() == spec_candidates(f2).to_multiset(),
    decreases f1.len(),
{
    broadcast use group_to_multiset_ensures;
    broadcast use vstd::multiset::group_multiset_axioms;

    f1.to_multiset_ensures();
    f2.to_multiset_ensures();
    if f1.len() == 0 {
        assert(f2.len() == 0);
        assert(f2 =~= f1);
    } else {
        let x = f1.last();
        assert(f1.contains(x));
        assert(f1.to_multiset().count(x) > 0);
        assert(f2.to_multiset().count(x) > 0);
        assert(f2.contains(x));
        let k = choose|k: int| 0 <= k < f2.len() && f2[k] == x;
        let b1 = f2.take(k);
        let b2 = f2.skip(k + 1);
        assert(f2 =~= b1 + seq![x] + b2);
        let f2r = b1 + b2;
        assert(f2.remove(k) =~= f2r);
        assert(f2.remove(k).to_multiset() =~= f2.to_multiset().remove(x));
        assert(f1.remove(f1.len() - 1) =~= f1.drop_last());
        assert(f1.remove(f1.len() - 1).to_multiset() =~= f1.to_multiset().remove(x));
        assert(f1.drop_last().to_multiset() == f2r.to_multiset());
        lemma_candidates_multiset(f1.drop_last(), f2r);
        // decompose both sides into concatenations
        lemma_candidates_append(b1 + seq![x], b2);
        lemma_candidates_append(b1, seq![x]);
        lemma_candidates_append(b1, b2);
        assert(f2 =~= (b1 + seq![x]) + b2);
        assert(spec_candidates(f2) == (spec_candidates(b1) + spec_candidates(seq![x]))
            + spec_candidates(b2));
        lemma_multiset_commutative(
            spec_candidates(b1) + spec_candidates(seq![x]),
            spec_candidates(b2),
        );
        lemma_multiset_commutative(spec_candidates(b1), spec_candidates(seq![x]));
        lemma_multiset_commutative(spec_candidates(b1), spec_candidates(b2));
        // candidates of f1 unfolds over its last element
        assert(spec_candidates(f1) == spec_candidates(f1.drop_last()) + spec_candidates(seq![x]))
            by {
            assert(seq![x].drop_last() =~= Seq::<SourceFileV>::empty());
            assert(seq![x].last() == x);
            assert(spec_candidates(Seq::<SourceFileV>::empty()) =~= Seq::<SourceFileV>::empty());
            assert(spec_candidates(seq![x]) =~= if crate::compile::spec_is_manifest_path(x.path) {
                seq![x]
            } else {
                Seq::<SourceFileV>::empty()
            });
            assert(spec_candidates(f1) =~= spec_candidates(f1.drop_last()) + spec_candidates(
                seq![x],
            ));
        }
        lemma_multiset_commutative(spec_candidates(f1.drop_last()), spec_candidates(seq![x]));
        assert(spec_candidates(f1).to_multiset() =~= spec_candidates(f2).to_multiset());
    }
}

/// Law: compilation does not depend on the order files were discovered
/// in — any two enumerations of the same file set compile to the same
/// result.
pub proof fn lemma_compile_order_irrelevant(f1: Seq<SourceFileV>, f2: Seq<SourceFileV>)
    requires
        f1.to_multiset() == f2.to_multiset(),
    ensures
        spec_compile(f1) == spec_compile(f2),
{
    let leq = file_le_fn();
    lemma_file_le_total_ordering();
    lemma_candidates_multiset(f1, f2);
    let c1 = spec_candidates(f1);
    let c2 = spec_candidates(f2);
    c1.lemma_sort_by_ensures(leq);
    c2.lemma_sort_by_ensures(leq);
    assert(c1.sort_by(leq).to_multiset() == c2.sort_by(leq).to_multiset());
    lemma_sorted_unique(c1.sort_by(leq), c2.sort_by(leq), leq);
    assert(spec_sort_files(c1) == spec_sort_files(c2));
}

proof fn lemma_get_by_slug_at(ws: Seq<WorkflowV>, i: int)
    requires
        slugs_distinct(ws),
        0 <= i < ws.len(),
    ensures
        WorkflowCollection::spec_get_by_slug(ws, ws[i].slug) == Some(ws[i]),
    decreases ws.len(),
{
    if ws[0].slug == ws[i].slug {
        assert(i == 0);
    } else {
        let tail = ws.drop_first();
        assert forall|a: int, b: int| 0 <= a < b < tail.len() implies #[trigger] tail[a].slug
            != #[trigger] tail[b].slug by {
            assert(tail[a] == ws[a + 1]);
            assert(tail[b] == ws[b + 1]);
        }
        assert(tail[i - 1] == ws[i]);
        lemma_get_by_slug_at(tail, i - 1);
    }
}

/// Law: in a well-formed collection, looking any workflow up by its own
/// slug returns a value equal to that workflow — the round trip is exact.
pub proof fn lemma_slug_round_trip(c: WorkflowCollectionV, i: int)
    requires
        collection_wf(c),
        0 <= i < c.workflows.len(),
    ensures
        WorkflowCollection::spec_get_by_slug(c.workflows, c.workflows[i].slug) == Some(
            c.workflows[i],
        ),
{
    lemma_get_by_slug_at(c.workflows, i);
}

proof fn lemma_search_upto_membership(c: WorkflowCollectionV, q: Seq<char>, i: int, n: int)
    requires
        slugs_distinct(c.workflows),
        0 <= i < c.workflows.len(),
        0 <= n <= c.workflows.len(),
    ensures
        WorkflowCollection::spec_search_upto(c, q, n).contains(c.workflows[i]) <==> (i < n
            && is_substring(lower_of(q), c.search_index[i].searchable_text)),
    decreases n,
{
    broadcast use lemma_seq_concat_contains_all_elements;

    if n > 0 {
        lemma_search_upto_membership(c, q, i, n - 1);
        if is_substring(lower_of(q), c.search_index[n - 1].searchable_text) {
            let single = seq![c.workflows[n - 1]];
            assert(single[0] == c.workflows[n - 1]);
            assert(WorkflowCollection::spec_search_upto(c, q, n)
                == WorkflowCollection::spec_search_upto(c, q, n - 1) + single);
            if c.workflows[i] == c.workflows[n - 1] {
                assert(single.contains(c.workflows[i]));
                if i < n - 1 {
                    assert(c.workflows[i].slug != c.workflows[n - 1].slug);
                    assert(false);
                }
                if i > n - 1 {
                    assert(c.workflows[n - 1].slug != c.workflows[i].slug);
                    assert(false);
                }
            }
            if single.contains(c.workflows[i]) {
                let k = choose|k: int| 0 <= k < single.len() && single[k] == c.workflows[i];
                assert(k == 0);
                assert(c.workflows[i] == c.workflows[n - 1]);
            }
        } else {
            assert(WorkflowCollection::spec_search_upto(c, q, n)
                =~= WorkflowCollection::spec_search_upto(c, q, n - 1));
        }
    }
}

/// Law: the search result holds a workflow of a well-formed collection if
/// and only if its searchable text holds the case-folded query as a
/// substring — exactly the matching workflows, no others.
pub proof fn lemma_search_exact(c: WorkflowCollectionV, q: Seq<char>, i: int)
    requires
        collection_wf(c),
        0 <= i < c.workflows.len(),
    ensures
        WorkflowCollection::spec_search(c, q).contains(c.workflows[i]) <==> is_substring(
            lower_of(q),
            c.search_index[i].searchable_text,
        ),
{
    lemma_search_upto_membership(c, q, i, c.workflows.len() as int);
}

/// Law: a run whose items hold any two workflows with the same slug fails,
/// and the reported error names a colliding pair and its slug.
pub proof fn lemma_duplicate_slug_fails(items: Seq<(Seq<char>, WorkflowV)>, i: int, j: int)
    requires
        0 <= i < j < items.len(),
        items[i].1.slug == items[j].1.slug,
    ensures
        spec_build(items) is Err,
        exists|a: int, b: int|
            0 <= a < b < items.len() && #[trigger] items[a].1.slug == #[trigger] items[b].1.slug
                && spec_build(items)->Err_0.first_path == items[a].0 && spec_build(
                items,
            )->Err_0.second_path == items[b].0 && spec_build(items)->Err_0.slug
                == items[b].1.slug,
{
    lemma_build_cases(items);
    if spec_build(items) is Ok {
        let ws = items.map_values(|p: (Seq<char>, WorkflowV)| p.1);
        assert(ws[i] == items[i].1);
        assert(ws[j] == items[j].1);
        assert(ws[i].slug != ws[j].slug);
        assert(false);
    }
}

proof fn lemma_add_unique_props(acc: Seq<Seq<char>>, ts: Seq<Seq<char>>)
    ensures
        forall|t: Seq<char>|
            #[trigger] add_unique(acc, ts).contains(t) <==> acc.contains(t) || ts.contains(t),
        acc.no_duplicates() ==> add_unique(acc, ts).no_duplicates(),
    decreases ts.len(),
{
    broadcast use lemma_seq_concat_contains_all_elements;

    if ts.len() == 0 {
        assert forall|t: Seq<char>| #[trigger] ts.contains(t) implies false by {}
    } else {
        let x = ts[0];
        let acc2 = if acc.contains(x) {
            acc
        } else {
            acc.push(x)
        };
        assert(acc2 =~= if acc.contains(x) {
            acc
        } else {
            acc + seq![x]
        });
        assert(seq![x][0] == x);
        assert(seq![x].contains(x));
        assert forall|t: Seq<char>| #[trigger] seq![x].contains(t) implies t == x by {
            let k = choose|k: int| 0 <= k < seq![x].len() && seq![x][k] == t;
            assert(k == 0);
        }
        assert forall|t: Seq<char>| #[trigger] acc2.contains(t) <==> acc.contains(t) || t == x
            by {}
        if acc.no_duplicates() && !acc.contains(x) {
            assert forall|a: int, b: int|
                0 <= a < b < acc2.len() implies #[trigger] acc2[a] != #[trigger] acc2[b] by {
                if b < acc.len() {
                } else {
                    assert(acc2[b] == x);
                    assert(acc.contains(acc2[a])) by {
                        assert(acc2[a] == acc[a]);
                    }
                }
            }
            assert(acc2.no_duplicates());
        }
        lemma_add_unique_props(acc2, ts.drop_first());
        assert forall|t: Seq<char>|
            #[trigger] add_unique(acc, ts).contains(t) <==> acc.contains(t) || ts.contains(t) by {
            assert(add_unique(acc, ts) == add_unique(acc2, ts.drop_first()));
            if add_unique(acc, ts).contains(t) {
                if acc2.contains(t) {
                    if !acc.contains(t) {
                        assert(t == x);
                        assert(ts[0] == x);
                        assert(ts.contains(t));
                    }
                } else {
                    assert(ts.drop_first().contains(t));
                    let k = choose|k: int|
                        0 <= k < ts.drop_first().len() && ts.drop_first()[k] == t;
                    assert(ts[k + 1] == t);
                    assert(ts.contains(t));
                }
            }
            if acc.contains(t) {
                assert(acc2.contains(t));
                assert(add_unique(acc2, ts.drop_first()).contains(t));
            }
            if ts.contains(t) {
                let k = choose|k: int| 0 <= k < ts.len() && ts[k] == t;
                if k == 0 {
                    assert(acc2.contains(t));
                } else {
                    assert(ts.drop_first()[k - 1] == t);
                    assert(ts.drop_first().contains(t));
                }
                assert(add_unique(acc2, ts.drop_first()).contains(t));
            }
        }
    }
}

/// Some workflow of `ws` lists the tag `t`.
pub open spec fn some_has_tag(ws: Seq<WorkflowV>, t: Seq<char>) -> bool {
    exists|i: int| 0 <= i < ws.len() && opt_or_no_strings(#[trigger] ws[i].tags).contains(t)
}

proof fn lemma_union_acc_props(ws: Seq<WorkflowV>, acc: Seq<Seq<char>>, t: Seq<char>)
    ensures
        union_acc(ws, acc).contains(t) <==> acc.contains(t) || some_has_tag(ws, t),
        acc.no_duplicates() ==> union_acc(ws, acc).no_duplicates(),
    decreases ws.len(),
{
    if ws.len() == 0 {
        if some_has_tag(ws, t) {
            let i = choose|i: int|
                0 <= i < ws.len() && opt_or_no_strings(#[trigger] ws[i].tags).contains(t);
            assert(false);
        }
    } else {
        let head_tags = opt_or_no_strings(ws[0].tags);
        let acc2 = add_unique(acc, head_tags);
        lemma_add_unique_props(acc, head_tags);
        lemma_union_acc_props(ws.drop_first(), acc2, t);
        let tail = ws.drop_first();
        if some_has_tag(tail, t) {
            let i = choose|i: int|
                0 <= i < tail.len() && opt_or_no_strings(#[trigger] tail[i].tags).contains(t);
            assert(tail[i] == ws[i + 1]);
            assert(opt_or_no_strings(ws[i + 1].tags).contains(t));
            assert(some_has_tag(ws, t));
        }
        if head_tags.contains(t) {
            assert(some_has_tag(ws, t));
        }
        if some_has_tag(ws, t) && !head_tags.contains(t) {
            let i = choose|i: int|
                0 <= i < ws.len() && opt_or_no_strings(#[trigger] ws[i].tags).contains(t);
            assert(i >= 1);
            assert(tail[i - 1] == ws[i]);
            assert(opt_or_no_strings(tail[i - 1].tags).contains(t));
            assert(some_has_tag(tail, t));
        }
    }
}

/// Law: the collection's tag set holds a tag if and only if some workflow
/// lists it, and holds no tag twice.
pub proof fn lemma_tag_union_exact(ws: Seq<WorkflowV>, t: Seq<char>)
    ensures
        spec_tags_union(ws).contains(t) <==> some_has_tag(ws, t),
        spec_tags_union(ws).no_duplicates(),
{
    lemma_union_acc_props(ws, Seq::empty(), t);
    assert(Seq::<Seq<char>>::empty().no_duplicates());
    assert(!Seq::<Seq<char>>::empty().contains(t));
}

/// Law: parsing isolates failures per file — each file contributes either
/// one workflow or one error, an empty error list means every file parsed,
/// and every reported error is some file's own error.
pub proof fn lemma_error_isolation(fs: Seq<SourceFileV>)
    ensures
        spec_errors(fs).len() + spec_oks(fs).len() == fs.len(),
        spec_errors(fs).len() == 0 <==> (forall|i: int|
            0 <= i < fs.len() ==> spec_parse_one(#[trigger] fs[i]) is Ok),
        forall|k: int|
            0 <= k < spec_errors(fs).len() ==> exists|i: int|
                0 <= i < fs.len() && spec_parse_one(#[trigger] fs[i]) == Err::<
                    WorkflowV,
                    crate::compile::FileErrorV,
                >(#[trigger] spec_errors(fs)[k]),
        forall|k: int|
            0 <= k < spec_oks(fs).len() ==> exists|i: int|
                0 <= i < fs.len() && spec_parse_one(#[trigger] fs[i]) == Ok::<
                    WorkflowV,
                    crate::compile::FileErrorV,
                >((#[trigger] spec_oks(fs)[k]).1) && fs[i].path == spec_oks(fs)[k].0,
    decreases fs.len(),
{
    if fs.len() > 0 {
        lemma_error_isolation(fs.drop_last());
        let head = fs.drop_last();
        assert forall|i: int| 0 <= i < head.len() implies #[trigger] head[i] == fs[i] by {}
        match spec_parse_one(fs.last()) {
            Ok(_) => {
                assert(spec_errors(fs) =~= spec_errors(head));
                assert(spec_oks(fs).len() == spec_oks(head).len() + 1);
                if spec_errors(head).len() == 0 {
                    assert forall|i: int| 0 <= i < fs.len() implies spec_parse_one(
                        #[trigger] fs[i],
                    ) is Ok by {
                        if i < head.len() {
                            assert(spec_parse_one(head[i]) is Ok);
                        } else {
                            assert(fs[i] == fs.last());
                        }
                    }
                } else {
                    let i = choose|i: int|
                        0 <= i < head.len() && !(spec_parse_one(#[trigger] head[i]) is Ok);
                    assert(fs[i] == head[i]);
                    assert(!(spec_parse_one(fs[i]) is Ok));
                }
                assert forall|k: int| 0 <= k < spec_errors(fs).len() implies exists|i: int|
                    0 <= i < fs.len() && spec_parse_one(#[trigger] fs[i]) == Err::<
                        WorkflowV,
                        crate::compile::FileErrorV,
                    >(#[trigger] spec_errors(fs)[k]) by {
                    assert(spec_errors(fs)[k] == spec_errors(head)[k]);
                    let i = choose|i: int|
                        0 <= i < head.len() && spec_parse_one(#[trigger] head[i]) == Err::<
                            WorkflowV,
                            crate::compile::FileErrorV,
                        >(spec_errors(head)[k]);
                    assert(fs[i] == head[i]);
                    assert(spec_parse_one(fs[i]) == Err::<
                        WorkflowV,
                        crate::compile::FileErrorV,
                    >(spec_errors(fs)[k]));
                }
                assert(spec_oks(fs) =~= spec_oks(head).push(
                    (fs.last().path, spec_parse_one(fs.last())->Ok_0),
                ));
                assert forall|k: int| 0 <= k < spec_oks(fs).len() implies exists|i: int|
                    0 <= i < fs.len() && spec_parse_one(#[trigger] fs[i]) == Ok::<
                        WorkflowV,
                        crate::compile::FileErrorV,
                    >((#[trigger] spec_oks(fs)[k]).1) && fs[i].path == spec_oks(fs)[k].0 by {
                    if k < spec_oks(head).len() {
                        assert(spec_oks(fs)[k] == spec_oks(head)[k]);
                        let i = choose|i: int|
                            0 <= i < head.len() && spec_parse_one(#[trigger] head[i]) == Ok::<
                                WorkflowV,
                                crate::compile::FileErrorV,
                            >((#[trigger] spec_oks(head)[k]).1) && head[i].path == spec_oks(
                                head,
                            )[k].0;
                        assert(fs[i] == head[i]);
                        assert(spec_parse_one(fs[i]) == Ok::<
                            WorkflowV,
                            crate::compile::FileErrorV,
                        >(spec_oks(fs)[k].1));
                    } else {
                        assert(fs[fs.len() - 1] == fs.last());
                        assert(spec_oks(fs)[k] == (
                            fs[fs.len() - 1].path,
                            spec_parse_one(fs[fs.len() - 1])->Ok_0,
                        ));
                        assert(spec_parse_one(fs[fs.len() - 1]) == Ok::<
                            WorkflowV,
                            crate::compile::FileErrorV,
                        >(spec_oks(fs)[k].1));
                    }
                }
            },
            Err(e) => {
                assert(spec_errors(fs) =~= spec_errors(head).push(e));
                assert forall|k: int| 0 <= k < spec_errors(fs).len() implies exists|i: int|
                    0 <= i < fs.len() && spec_parse_one(#[trigger] fs[i]) == Err::<
                        WorkflowV,
                        crate::compile::FileErrorV,
                    >(#[trigger] spec_errors(fs)[k]) by {
                    if k < spec_errors(head).len() {
                        assert(spec_errors(fs)[k] == spec_errors(head)[k]);
                        let i = choose|i: int|
                            0 <= i < head.len() && spec_parse_one(#[trigger] head[i]) == Err::<
                                WorkflowV,
                                crate::compile::FileErrorV,
                            >(spec_errors(head)[k]);
                        assert(fs[i] == head[i]);
                        assert(spec_parse_one(fs[i]) == Err::<
                            WorkflowV,
                            crate::compile::FileErrorV,
                        >(spec_errors(fs)[k]));
                    } else {
                        assert(spec_errors(fs)[k] == e);
                        assert(fs[fs.len() - 1] == fs.last());
                        assert(spec_parse_one(fs[fs.len() - 1]) == Err::<
                            WorkflowV,
                            crate::compile::FileErrorV,
                        >(e));
                    }
                }
                assert(spec_parse_one(fs[fs.len() - 1]) is Err);
                assert(spec_oks(fs) =~= spec_oks(head));
                assert forall|k: int| 0 <= k < spec_oks(fs).len() implies exists|i: int|
                    0 <= i < fs.len() && spec_parse_one(#[trigger] fs[i]) == Ok::<
                        WorkflowV,
                        crate::compile::FileErrorV,
                    >((#[trigger] spec_oks(fs)[k]).1) && fs[i].path == spec_oks(fs)[k].0 by {
                    assert(spec_oks(fs)[k] == spec_oks(head)[k]);
                    let i = choose|i: int|
                        0 <= i < head.len() && spec_parse_one(#[trigger] head[i]) == Ok::<
                            WorkflowV,
                            crate::compile::FileErrorV,
                        >((#[trigger] spec_oks(head)[k]).1) && head[i].path == spec_oks(head)[k].0;
                    assert(fs[i] == head[i]);
                    assert(spec_parse_one(fs[i]) == Ok::<
                        WorkflowV,
                        crate::compile::FileErrorV,
                    >(spec_oks(fs)[k].1));
                }
            },
        }
    }
}

/// Law: a manifest without a `name` field gets its slug as its display
/// name, and an argument whose block omits `required` is required by
/// default — for every raw manifest and stem.
pub proof fn lemma_defaults_applied(raw: RawWorkflowV, stem: Seq<char>, k: int)
    ensures
        raw.name is None ==> spec_normalize(raw, stem).name == spec_normalize(raw, stem).slug,
        spec_normalize(raw, stem).slug == spec_slug(stem),
        raw.command is None ==> spec_normalize(raw, stem).command == Seq::<char>::empty(),
        raw.arguments matches Some(args) && 0 <= k < args.len() && args[k].required is None
            ==> spec_normalize(raw, stem).arguments->Some_0[k].required == Some(true),
{
}

proof fn lemma_slug_from_shape(s: Seq<char>, started: bool, pending: bool)
    ensures
        forall|i: int|
            0 <= i < slug_from(s, started, pending).len() ==> is_lower(
                #[trigger] slug_from(s, started, pending)[i],
            ) || is_digit(slug_from(s, started, pending)[i]) || slug_from(s, started, pending)[i]
                == '-',
        slug_from(s, started, pending).len() > 0 ==> slug_from(s, started, pending).last() != '-',
        !started && slug_from(s, started, pending).len() > 0 ==> slug_from(
            s,
            started,
            pending,
        )[0] != '-',
        forall|i: int|
            0 < i < slug_from(s, started, pending).len() && #[trigger] slug_from(
                s,
                started,
                pending,
            )[i] == '-' ==> slug_from(s, started, pending)[i - 1] != '-',
    decreases s.len(),
{
    if s.len() > 0 {
        let c = s[0];
        if is_word_char(c) {
            let w = fold_char(c);
            assert(is_lower(w) || is_digit(w));
            let emitted: Seq<char> = if started && pending {
                seq!['-', w]
            } else {
                seq![w]
            };
            let rest = slug_from(s.drop_first(), true, false);
            lemma_slug_from_shape(s.drop_first(), true, false);
            let r = slug_from(s, started, pending);
            assert(r == emitted + rest);
            assert forall|i: int|
                0 < i < r.len() && #[trigger] r[i] == '-' implies r[i - 1] != '-' by {
                if i < emitted.len() {
                    assert(r[i] == emitted[i]);
                } else if i == emitted.len() {
                    assert(r[i - 1] == emitted.last());
                } else {
                    assert(r[i] == rest[i - emitted.len()]);
                    assert(r[i - 1] == rest[i - 1 - emitted.len()]);
                }
            }
            if r.len() > 0 {
                if rest.len() > 0 {
                    assert(r.last() == rest.last());
                } else {
                    assert(r.last() == emitted.last());
                }
            }
        } else {
            lemma_slug_from_shape(s.drop_first(), started, true);
        }
    }
}

/// Law: a derived slug is in canonical kebab form — only lower-case ASCII
/// letters, digits and interior single hyphens, with no leading or
/// trailing hyphen.
pub proof fn lemma_slug_canonical(stem: Seq<char>)
    ensures
        forall|i: int|
            0 <= i < spec_slug(stem).len() ==> is_lower(#[trigger] spec_slug(stem)[i]) || is_digit(
                spec_slug(stem)[i],
            ) || spec_slug(stem)[i] == '-',
        spec_slug(stem).len() > 0 ==> spec_slug(stem)[0] != '-' && spec_slug(stem).last() != '-',
        forall|i: int|
            0 < i < spec_slug(stem).len() && #[trigger] spec_slug(stem)[i] == '-' ==> spec_slug(
                stem,
            )[i - 1] != '-',
{
    lemma_slug_from_shape(stem, false, false);
}

} // verus!
