//! The workflow normalizer: canonicalizes one extracted manifest into a
//! `Workflow`, applying the slug, the name and command defaults, and the
//! `required` default inside argument blocks.

use vstd::prelude::*;

use crate::extract::{RawWorkflow, RawWorkflowV};
use crate::model::{clone_opt_string, Workflow, WorkflowArgument, WorkflowArgumentV, WorkflowV};
use crate::text::{slugify, spec_slug};

verus! {

/// The normalized form of one argument: `required` defaults to `true`
/// when the argument block is present but the field was omitted.
pub open spec fn spec_defaulted_arg(a: WorkflowArgumentV) -> WorkflowArgumentV {
    WorkflowArgumentV {
        name: a.name,
        description: a.description,
        default_value: a.default_value,
        required: match a.required {
            Some(b) => Some(b),
            None => Some(true),
        },
    }
}

/// The canonical workflow a raw manifest and its source file stem yield:
/// the slug is derived from the stem alone, the name defaults to the slug,
/// the command defaults to the empty string, every other absent field stays
/// absent, and each argument gets its `required` default.
pub open spec fn spec_normalize(raw: RawWorkflowV, stem: Seq<char>) -> WorkflowV {
    WorkflowV {
        name: match raw.name {
            Some(n) => n,
            None => spec_slug(stem),
        },
        command: match raw.command {
            Some(c) => c,
            None => Seq::empty(),
        },
        description: raw.description,
        tags: raw.tags,
        arguments: match raw.arguments {
            Some(args) => Some(args.map_values(|a: WorkflowArgumentV| spec_defaulted_arg(a))),
            None => None,
        },
        source_url: raw.source_url,
        author: raw.author,
        author_url: raw.author_url,
        shells: raw.shells,
        slug: spec_slug(stem),
    }
}

fn default_required(args: &Vec<WorkflowArgument>) -> (r: Vec<WorkflowArgument>)
    ensures
        r.deep_view() == args.deep_view().map_values(
            |a: WorkflowArgumentV| spec_defaulted_arg(a),
        ),
{
    let mut r: Vec<WorkflowArgument> = Vec::new();
    let mut i: usize = 0;
    while i < args.len()
        invariant
            i <= args@.len(),
            r@.len() == i,
            forall|j: int|
                0 <= j < i ==> #[trigger] r@[j].deep_view() == spec_defaulted_arg(
                    args@[j].deep_view(),
                ),
        decreases args@.len() - i,
    {
        let a = &args[i];
        let ghost prev = r@;
        let req: Option<bool> = match a.required {
            Some(b) => Some(b),
            None => Some(true),
        };
        r.push(
            WorkflowArgument {
                name: a.name.clone(),
                description: clone_opt_string(&a.description),
                default_value: clone_opt_string(&a.default_value),
                required: req,
            },
        );
        proof {
            assert(forall|j: int| 0 <= j < i ==> r@[j] == prev[j]);
        }
        i = i + 1;
    }
    proof {
        let rhs = args.deep_view().map_values(|a: WorkflowArgumentV| spec_defaulted_arg(a));
        assert forall|j: int| 0 <= j < args@.len() implies r.deep_view()[j] == rhs[j] by {
            assert(r@[j].deep_view() == spec_defaulted_arg(args@[j].deep_view()));
            assert(rhs[j] == spec_defaulted_arg(args.deep_view()[j]));
        }
        assert(r.deep_view() =~= rhs);
    }
    r
}

/// Normalizes one extracted manifest, given the stem of the file it came
/// from. The slug is derived from the stem, never from the `name` field.
pub fn normalize(raw: RawWorkflow, stem: &str) -> (w: Workflow)
    ensures
        w.deep_view() == spec_normalize(raw.deep_view(), stem@),
{
    let slug = slugify(stem);
    let name = match raw.name {
        Some(n) => n,
        None => slug.clone(),
    };
    let command = match raw.command {
        Some(c) => c,
        None => String::new(),
    };
    let arguments = match &raw.arguments {
        Some(args) => Some(default_required(args)),
        None => None,
    };
    Workflow {
        name,
        command,
        description: raw.description,
        tags: raw.tags,
        arguments,
        source_url: raw.source_url,
        author: raw.author,
        author_url: raw.author_url,
        shells: raw.shells,
        slug,
    }
}

} // verus!
