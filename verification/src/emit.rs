//! The artifact emitter: serializes a collection into the data artifact,
//! the standalone search-index artifact, and the schema declarations, each
//! byte-for-byte deterministic — fixed key order, fixed sequence order,
//! fixed escaping.

use vstd::prelude::*;

use crate::model::{
    SearchIndexEntry, SearchIndexEntryV, Workflow, WorkflowArgument, WorkflowArgumentV,
    WorkflowCollection, WorkflowCollectionV, WorkflowV,
};
use crate::text::{push_str_chars, string_from_chars};

verus! {

/// The hexadecimal digit of a value below 16, lower case.
pub open spec fn hex_digit(n: u32) -> char {
    if n < 10 {
        ((48 + n) as u8) as char
    } else {
        ((87 + n) as u8) as char
    }
}

/// How one character is written inside a JSON string: quote, backslash
/// and the named control characters get two-character escapes, other
/// control characters a `\u00..` escape, everything else itself.
pub open spec fn escape_char(c: char) -> Seq<char> {
    if c == '"' {
        seq!['\\', '"']
    } else if c == '\\' {
        seq!['\\', '\\']
    } else if c == '\n' {
        seq!['\\', 'n']
    } else if c == '\r' {
        seq!['\\', 'r']
    } else if c == '\t' {
        seq!['\\', 't']
    } else if (c as u32) < 32 {
        seq!['\\', 'u', '0', '0', hex_digit((c as u32) / 16), hex_digit((c as u32) % 16)]
    } else {
        seq![c]
    }
}

/// A whole string body, escaped.
pub open spec fn escape(s: Seq<char>) -> Seq<char>
    decreases s.len(),
{
    if s.len() == 0 {
        Seq::empty()
    } else {
        escape(s.drop_last()) + escape_char(s.last())
    }
}

/// A JSON string value.
pub open spec fn json_str(s: Seq<char>) -> Seq<char> {
    seq!['"'] + escape(s) + seq!['"']
}

/// An optional string: `null` when absent.
pub open spec fn json_opt_str(o: Option<Seq<char>>) -> Seq<char> {
    match o {
        Some(s) => json_str(s),
        None => "null"@,
    }
}

/// A boolean value.
pub open spec fn json_bool(b: bool) -> Seq<char> {
    if b {
        "true"@
    } else {
        "false"@
    }
}

/// An optional boolean: `null` when absent.
pub open spec fn json_opt_bool(o: Option<bool>) -> Seq<char> {
    match o {
        Some(b) => json_bool(b),
        None => "null"@,
    }
}

/// The comma-separated items of a string array.
pub open spec fn json_str_items(xs: Seq<Seq<char>>) -> Seq<char>
    decreases xs.len(),
{
    if xs.len() == 0 {
        Seq::empty()
    } else if xs.len() == 1 {
        json_str(xs[0])
    } else {
        json_str_items(xs.drop_last()) + seq![','] + json_str(xs.last())
    }
}

/// A JSON array of strings.
pub open spec fn json_str_array(xs: Seq<Seq<char>>) -> Seq<char> {
    seq!['['] + json_str_items(xs) + seq![']']
}

/// An optional string array: `null` when absent.
pub open spec fn json_opt_str_array(o: Option<Seq<Seq<char>>>) -> Seq<char> {
    match o {
        Some(xs) => json_str_array(xs),
        None => "null"@,
    }
}

/// One workflow argument as a JSON object, fields in declaration order.
pub open spec fn json_arg(a: WorkflowArgumentV) -> Seq<char> {
    "{\"name\":"@ + json_str(a.name) + ",\"description\":"@ + json_opt_str(a.description)
        + ",\"default_value\":"@ + json_opt_str(a.default_value) + ",\"required\":"@
        + json_opt_bool(a.required) + seq!['}']
}

/// The comma-separated items of an argument array.
pub open spec fn json_arg_items(xs: Seq<WorkflowArgumentV>) -> Seq<char>
    decreases xs.len(),
{
    if xs.len() == 0 {
        Seq::empty()
    } else if xs.len() == 1 {
        json_arg(xs[0])
    } else {
        json_arg_items(xs.drop_last()) + seq![','] + json_arg(xs.last())
    }
}

/// An optional argument array: `null` when absent.
pub open spec fn json_opt_args(o: Option<Seq<WorkflowArgumentV>>) -> Seq<char> {
    match o {
        Some(xs) => seq!['['] + json_arg_items(xs) + seq![']'],
        None => "null"@,
    }
}

/// The first half of a workflow object: name through arguments.
pub open spec fn json_workflow_head(w: WorkflowV) -> Seq<char> {
    "{\"name\":"@ + json_str(w.name) + ",\"command\":"@ + json_str(w.command)
        + ",\"description\":"@ + json_opt_str(w.description) + ",\"tags\":"@ + json_opt_str_array(
        w.tags,
    ) + ",\"arguments\":"@ + json_opt_args(w.arguments)
}

/// The second half of a workflow object: source_url through slug.
pub open spec fn json_workflow_tail(w: WorkflowV) -> Seq<char> {
    ",\"source_url\":"@ + json_opt_str(w.source_url) + ",\"author\":"@ + json_opt_str(w.author)
        + ",\"author_url\":"@ + json_opt_str(w.author_url) + ",\"shells\":"@
        + json_opt_str_array(w.shells) + ",\"slug\":"@ + json_str(w.slug) + seq!['}']
}

/// One workflow as a JSON object, fields in declaration order.
pub open spec fn json_workflow(w: WorkflowV) -> Seq<char> {
    json_workflow_head(w) + json_workflow_tail(w)
}

/// The comma-separated items of a workflow array.
pub open spec fn json_workflow_items(xs: Seq<WorkflowV>) -> Seq<char>
    decreases xs.len(),
{
    if xs.len() == 0 {
        Seq::empty()
    } else if xs.len() == 1 {
        json_workflow(xs[0])
    } else {
        json_workflow_items(xs.drop_last()) + seq![','] + json_workflow(xs.last())
    }
}

/// The first half of an entry object: slug through tags.
pub open spec fn json_entry_head(e: SearchIndexEntryV) -> Seq<char> {
    "{\"slug\":"@ + json_str(e.slug) + ",\"name\":"@ + json_str(e.name) + ",\"description\":"@
        + json_str(e.description) + ",\"tags\":"@ + json_str_array(e.tags)
}

/// The second half of an entry object: command through searchable_text.
pub open spec fn json_entry_tail(e: SearchIndexEntryV) -> Seq<char> {
    ",\"command\":"@ + json_str(e.command) + ",\"author\":"@ + json_opt_str(e.author)
        + ",\"searchable_text\":"@ + json_str(e.searchable_text) + seq!['}']
}

/// One search-index entry as a JSON object, fields in declaration order.
pub open spec fn json_entry(e: SearchIndexEntryV) -> Seq<char> {
    json_entry_head(e) + json_entry_tail(e)
}

/// The comma-separated items of an entry array.
pub open spec fn json_entry_items(xs: Seq<SearchIndexEntryV>) -> Seq<char>
    decreases xs.len(),
{
    if xs.len() == 0 {
        Seq::empty()
    } else if xs.len() == 1 {
        json_entry(xs[0])
    } else {
        json_entry_items(xs.drop_last()) + seq![','] + json_entry(xs.last())
    }
}

/// The data artifact: the whole collection as one JSON object.
pub open spec fn spec_data_artifact(c: WorkflowCollectionV) -> Seq<char> {
    "{\"workflows\":["@ + json_workflow_items(c.workflows) + "],\"search_index\":["@
        + json_entry_items(c.search_index) + "],\"tags\":"@ + json_str_array(c.tags) + seq!['}']
}

/// The standalone search-index artifact: just the entry array.
pub open spec fn spec_index_artifact(c: WorkflowCollectionV) -> Seq<char> {
    seq!['['] + json_entry_items(c.search_index) + seq![']']
}

fn hex_digit_exec(n: u32) -> (r: char)
    requires
        n < 16,
    ensures
        r == hex_digit(n),
{
    if n < 10 {
        ((48 + n) as u8) as char
    } else {
        ((87 + n) as u8) as char
    }
}

fn push_escaped(out: &mut Vec<char>, s: &str)
    ensures
        final(out)@ == old(out)@ + escape(s@),
{
    let len = s.unicode_len();
    let mut i: usize = 0;
    proof {
        assert(s@.take(0) =~= Seq::<char>::empty());
        assert(old(out)@ + escape(s@.take(0)) =~= old(out)@);
    }
    while i < len
        invariant
            i <= len,
            len == s@.len(),
            out@ == old(out)@ + escape(s@.take(i as int)),
        decreases len - i,
    {
        let c = s.get_char(i);
        let ghost prev = out@;
        proof {
            assert(s@.take(i + 1).drop_last() =~= s@.take(i as int));
            assert(s@.take(i + 1).last() == s@[i as int]);
        }
        let n = c as u32;
        if c == '"' {
            out.push('\\');
            out.push('"');
        } else if c == '\\' {
            out.push('\\');
            out.push('\\');
        } else if c == '\n' {
            out.push('\\');
            out.push('n');
        } else if c == '\r' {
            out.push('\\');
            out.push('r');
        } else if c == '\t' {
            out.push('\\');
            out.push('t');
        } else if n < 32 {
            out.push('\\');
            out.push('u');
            out.push('0');
            out.push('0');
            out.push(hex_digit_exec(n / 16));
            out.push(hex_digit_exec(n % 16));
        } else {
            out.push(c);
        }
        proof {
            assert(out@ =~= prev + escape_char(s@[i as int]));
            assert(prev + escape_char(s@[i as int]) =~= old(out)@ + escape(s@.take(i + 1)));
        }
        i = i + 1;
    }
    proof {
        assert(s@.take(len as int) =~= s@);
    }
}

fn push_json_str(out: &mut Vec<char>, s: &str)
    ensures
        final(out)@ == old(out)@ + json_str(s@),
{
    out.push('"');
    push_escaped(out, s);
    out.push('"');
    proof {
        assert(out@ =~= old(out)@ + json_str(s@));
    }
}

fn push_json_opt_str(out: &mut Vec<char>, o: &Option<String>)
    ensures
        final(out)@ == old(out)@ + json_opt_str(o.deep_view()),
{
    match o {
        Some(s) => push_json_str(out, s.as_str()),
        None => push_str_chars(out, "null"),
    }
}

fn push_json_opt_bool(out: &mut Vec<char>, o: &Option<bool>)
    ensures
        final(out)@ == old(out)@ + json_opt_bool(*o),
{
    match o {
        Some(b) => {
            if *b {
                push_str_chars(out, "true");
            } else {
                push_str_chars(out, "false");
            }
        },
        None => push_str_chars(out, "null"),
    }
}

fn push_json_str_items(out: &mut Vec<char>, xs: &Vec<String>)
    ensures
        final(out)@ == old(out)@ + json_str_items(xs.deep_view()),
{
    let ghost dv = xs.deep_view();
    let mut i: usize = 0;
    proof {
        assert(dv.take(0) =~= Seq::<Seq<char>>::empty());
        assert(old(out)@ + json_str_items(dv.take(0)) =~= old(out)@);
    }
    while i < xs.len()
        invariant
            i <= xs@.len(),
            dv == xs.deep_view(),
            dv.len() == xs@.len(),
            out@ == old(out)@ + json_str_items(dv.take(i as int)),
        decreases xs@.len() - i,
    {
        let ghost prev = out@;
        proof {
            assert(dv.take(i + 1).drop_last() =~= dv.take(i as int));
            assert(dv.take(i + 1).last() == dv[i as int]);
            assert(dv[i as int] == xs@[i as int]@);
        }
        if i > 0 {
            out.push(',');
        }
        push_json_str(out, xs[i].as_str());
        proof {
            if i == 0 {
                assert(out@ =~= old(out)@ + json_str_items(dv.take(1)));
            } else {
                assert(out@ =~= prev + seq![','] + json_str(dv[i as int]));
                assert(prev + seq![','] + json_str(dv[i as int]) =~= old(out)@ + json_str_items(
                    dv.take(i + 1),
                ));
            }
        }
        i = i + 1;
    }
    proof {
        assert(dv.take(dv.len() as int) =~= dv);
    }
}

fn push_json_str_array(out: &mut Vec<char>, xs: &Vec<String>)
    ensures
        final(out)@ == old(out)@ + json_str_array(xs.deep_view()),
{
    out.push('[');
    push_json_str_items(out, xs);
    out.push(']');
    proof {
        assert(out@ =~= old(out)@ + json_str_array(xs.deep_view()));
    }
}

fn push_json_opt_str_array(out: &mut Vec<char>, o: &Option<Vec<String>>)
    ensures
        final(out)@ == old(out)@ + json_opt_str_array(o.deep_view()),
{
    match o {
        Some(xs) => push_json_str_array(out, xs),
        None => push_str_chars(out, "null"),
    }
}

fn push_json_arg(out: &mut Vec<char>, a: &WorkflowArgument)
    ensures
        final(out)@ == old(out)@ + json_arg(a.deep_view()),
{
    push_str_chars(out, "{\"name\":");
    push_json_str(out, a.name.as_str());
    push_str_chars(out, ",\"description\":");
    push_json_opt_str(out, &a.description);
    push_str_chars(out, ",\"default_value\":");
    push_json_opt_str(out, &a.default_value);
    push_str_chars(out, ",\"required\":");
    push_json_opt_bool(out, &a.required);
    out.push('}');
    proof {
        assert(out@ =~= old(out)@ + json_arg(a.deep_view()));
    }
}

fn push_json_opt_args(out: &mut Vec<char>, o: &Option<Vec<WorkflowArgument>>)
    ensures
        final(out)@ == old(out)@ + json_opt_args(o.deep_view()),
{
    match o {
        Some(xs) => {
            out.push('[');
            let ghost dv = xs.deep_view();
            let ghost start = out@;
            let mut i: usize = 0;
            proof {
                assert(dv.take(0) =~= Seq::<WorkflowArgumentV>::empty());
                assert(start + json_arg_items(dv.take(0)) =~= start);
            }
            while i < xs.len()
                invariant
                    i <= xs@.len(),
                    dv == xs.deep_view(),
                    dv.len() == xs@.len(),
                    out@ == start + json_arg_items(dv.take(i as int)),
                decreases xs@.len() - i,
            {
                let ghost prev = out@;
                proof {
                    assert(dv.take(i + 1).drop_last() =~= dv.take(i as int));
                    assert(dv.take(i + 1).last() == dv[i as int]);
                    assert(dv[i as int] == xs@[i as int].deep_view());
                }
                if i > 0 {
                    out.push(',');
                }
                push_json_arg(out, &xs[i]);
                proof {
                    if i == 0 {
                        assert(out@ =~= start + json_arg_items(dv.take(1)));
                    } else {
                        assert(out@ =~= prev + seq![','] + json_arg(dv[i as int]));
                        assert(prev + seq![','] + json_arg(dv[i as int]) =~= start
                            + json_arg_items(dv.take(i + 1)));
                    }
                }
                i = i + 1;
            }
            out.push(']');
            proof {
                assert(dv.take(dv.len() as int) =~= dv);
                assert(out@ =~= old(out)@ + json_opt_args(o.deep_view()));
            }
        },
        None => push_str_chars(out, "null"),
    }
}

fn push_json_workflow_head(out: &mut Vec<char>, w: &Workflow)
    ensures
        final(out)@ == old(out)@ + json_workflow_head(w.deep_view()),
{
    push_str_chars(out, "{\"name\":");
    push_json_str(out, w.name.as_str());
    push_str_chars(out, ",\"command\":");
    push_json_str(out, w.command.as_str());
    push_str_chars(out, ",\"description\":");
    push_json_opt_str(out, &w.description);
    push_str_chars(out, ",\"tags\":");
    push_json_opt_str_array(out, &w.tags);
    push_str_chars(out, ",\"arguments\":");
    push_json_opt_args(out, &w.arguments);
    proof {
        assert(out@ =~= old(out)@ + json_workflow_head(w.deep_view()));
    }
}

fn push_json_workflow_tail(out: &mut Vec<char>, w: &Workflow)
    ensures
        final(out)@ == old(out)@ + json_workflow_tail(w.deep_view()),
{
    push_str_chars(out, ",\"source_url\":");
    push_json_opt_str(out, &w.source_url);
    push_str_chars(out, ",\"author\":");
    push_json_opt_str(out, &w.author);
    push_str_chars(out, ",\"author_url\":");
    push_json_opt_str(out, &w.author_url);
    push_str_chars(out, ",\"shells\":");
    push_json_opt_str_array(out, &w.shells);
    push_str_chars(out, ",\"slug\":");
    push_json_str(out, w.slug.as_str());
    out.push('}');
    proof {
        assert(out@ =~= old(out)@ + json_workflow_tail(w.deep_view()));
    }
}

fn push_json_workflow(out: &mut Vec<char>, w: &Workflow)
    ensures
        final(out)@ == old(out)@ + json_workflow(w.deep_view()),
{
    push_json_workflow_head(out, w);
    push_json_workflow_tail(out, w);
    proof {
        assert(out@ =~= old(out)@ + json_workflow(w.deep_view()));
    }
}

fn push_json_entry_head(out: &mut Vec<char>, e: &SearchIndexEntry)
    ensures
        final(out)@ == old(out)@ + json_entry_head(e.deep_view()),
{
    push_str_chars(out, "{\"slug\":");
    push_json_str(out, e.slug.as_str());
    push_str_chars(out, ",\"name\":");
    push_json_str(out, e.name.as_str());
    push_str_chars(out, ",\"description\":");
    push_json_str(out, e.description.as_str());
    push_str_chars(out, ",\"tags\":");
    push_json_str_array(out, &e.tags);
    proof {
        assert(out@ =~= old(out)@ + json_entry_head(e.deep_view()));
    }
}

fn push_json_entry_tail(out: &mut Vec<char>, e: &SearchIndexEntry)
    ensures
        final(out)@ == old(out)@ + json_entry_tail(e.deep_view()),
{
    push_str_chars(out, ",\"command\":");
    push_json_str(out, e.command.as_str());
    push_str_chars(out, ",\"author\":");
    push_json_opt_str(out, &e.author);
    push_str_chars(out, ",\"searchable_text\":");
    push_json_str(out, e.searchable_text.as_str());
    out.push('}');
    proof {
        assert(out@ =~= old(out)@ + json_entry_tail(e.deep_view()));
    }
}

fn push_json_entry(out: &mut Vec<char>, e: &SearchIndexEntry)
    ensures
        final(out)@ == old(out)@ + json_entry(e.deep_view()),
{
    push_json_entry_head(out, e);
    push_json_entry_tail(out, e);
    proof {
        assert(out@ =~= old(out)@ + json_entry(e.deep_view()));
    }
}

fn push_json_workflow_items(out: &mut Vec<char>, xs: &Vec<Workflow>)
    ensures
        final(out)@ == old(out)@ + json_workflow_items(xs.deep_view()),
{
    let ghost dv = xs.deep_view();
    let mut i: usize = 0;
    proof {
        assert(dv.take(0) =~= Seq::<WorkflowV>::empty());
        assert(old(out)@ + json_workflow_items(dv.take(0)) =~= old(out)@);
    }
    while i < xs.len()
        invariant
            i <= xs@.len(),
            dv == xs.deep_view(),
            dv.len() == xs@.len(),
            out@ == old(out)@ + json_workflow_items(dv.take(i as int)),
        decreases xs@.len() - i,
    {
        let ghost prev = out@;
        proof {
            assert(dv.take(i + 1).drop_last() =~= dv.take(i as int));
            assert(dv.take(i + 1).last() == dv[i as int]);
            assert(dv[i as int] == xs@[i as int].deep_view());
        }
        if i > 0 {
            out.push(',');
        }
        push_json_workflow(out, &xs[i]);
        proof {
            if i == 0 {
                assert(out@ =~= old(out)@ + json_workflow_items(dv.take(1)));
            } else {
                assert(out@ =~= prev + seq![','] + json_workflow(dv[i as int]));
                assert(prev + seq![','] + json_workflow(dv[i as int]) =~= old(out)@
                    + json_workflow_items(dv.take(i + 1)));
            }
        }
        i = i + 1;
    }
    proof {
        assert(dv.take(dv.len() as int) =~= dv);
    }
}

fn push_json_entry_items(out: &mut Vec<char>, xs: &Vec<SearchIndexEntry>)
    ensures
        final(out)@ == old(out)@ + json_entry_items(xs.deep_view()),
{
    let ghost dv = xs.deep_view();
    let mut i: usize = 0;
    proof {
        assert(dv.take(0) =~= Seq::<SearchIndexEntryV>::empty());
        assert(old(out)@ + json_entry_items(dv.take(0)) =~= old(out)@);
    }
    while i < xs.len()
        invariant
            i <= xs@.len(),
            dv == xs.deep_view(),
            dv.len() == xs@.len(),
            out@ == old(out)@ + json_entry_items(dv.take(i as int)),
        decreases xs@.len() - i,
    {
        let ghost prev = out@;
        proof {
            assert(dv.take(i + 1).drop_last() =~= dv.take(i as int));
            assert(dv.take(i + 1).last() == dv[i as int]);
            assert(dv[i as int] == xs@[i as int].deep_view());
        }
        if i > 0 {
            out.push(',');
        }
        push_json_entry(out, &xs[i]);
        proof {
            if i == 0 {
                assert(out@ =~= old(out)@ + json_entry_items(dv.take(1)));
            } else {
                assert(out@ =~= prev + seq![','] + json_entry(dv[i as int]));
                assert(prev + seq![','] + json_entry(dv[i as int]) =~= old(out)@
                    + json_entry_items(dv.take(i + 1)));
            }
        }
        i = i + 1;
    }
    proof {
        assert(dv.take(dv.len() as int) =~= dv);
    }
}

/// Serializes the whole collection into the data artifact.
pub fn emit_data_artifact(c: &WorkflowCollection) -> (r: String)
    ensures
        r@ == spec_data_artifact(c.deep_view()),
{
    let mut out: Vec<char> = Vec::new();
    push_str_chars(&mut out, "{\"workflows\":[");
    push_json_workflow_items(&mut out, &c.workflows);
    push_str_chars(&mut out, "],\"search_index\":[");
    push_json_entry_items(&mut out, &c.search_index);
    push_str_chars(&mut out, "],\"tags\":");
    push_json_str_array(&mut out, &c.tags);
    out.push('}');
    proof {
        assert(out@ =~= spec_data_artifact(c.deep_view()));
    }
    string_from_chars(&out)
}

/// Serializes just the search index, for lightweight loading.
pub fn emit_search_index_artifact(c: &WorkflowCollection) -> (r: String)
    ensures
        r@ == spec_index_artifact(c.deep_view()),
{
    let mut out: Vec<char> = Vec::new();
    out.push('[');
    push_json_entry_items(&mut out, &c.search_index);
    out.push(']');
    proof {
        assert(out@ =~= spec_index_artifact(c.deep_view()));
    }
    string_from_chars(&out)
}

} // verus!
