//! Vocabulary shared by the cops: the RSpec method names, constant names
//! and heredoc ends.
use vstd::prelude::*;
use vstd::string::StringSliceAdditionalSpecFns;
use crate::bytes::{eq_str, src_range, src_range_exec, starts_with, starts_with_str};
use crate::ast::{children, children_of, lemma_children_decrease, NamedKind, Node};

verus! {

/// Methods that open an RSpec example group (plain, focused, skipped).
pub open spec fn spec_is_rspec_example_group_only(name: Seq<u8>) -> bool {
    ||| name == "describe".spec_bytes()
    ||| name == "context".spec_bytes()
    ||| name == "feature".spec_bytes()
    ||| name == "example_group".spec_bytes()
    ||| name == "xdescribe".spec_bytes()
    ||| name == "xcontext".spec_bytes()
    ||| name == "xfeature".spec_bytes()
    ||| name == "fdescribe".spec_bytes()
    ||| name == "fcontext".spec_bytes()
    ||| name == "ffeature".spec_bytes()
}

/// Methods that define shared RSpec groups.
pub open spec fn spec_is_rspec_shared_group(name: Seq<u8>) -> bool {
    ||| name == "shared_examples".spec_bytes()
    ||| name == "shared_examples_for".spec_bytes()
    ||| name == "shared_context".spec_bytes()
}

/// Methods that open an example group or a shared group.
pub open spec fn spec_is_rspec_example_group(name: Seq<u8>) -> bool {
    spec_is_rspec_example_group_only(name) || spec_is_rspec_shared_group(name)
}

/// Methods that define an RSpec example.
pub open spec fn spec_is_rspec_example(name: Seq<u8>) -> bool {
    ||| name == "it".spec_bytes()
    ||| name == "specify".spec_bytes()
    ||| name == "example".spec_bytes()
    ||| name == "scenario".spec_bytes()
    ||| name == "its".spec_bytes()
    ||| name == "fit".spec_bytes()
    ||| name == "fspecify".spec_bytes()
    ||| name == "fexample".spec_bytes()
    ||| name == "fscenario".spec_bytes()
    ||| name == "focus".spec_bytes()
    ||| name == "xit".spec_bytes()
    ||| name == "xspecify".spec_bytes()
    ||| name == "xexample".spec_bytes()
    ||| name == "xscenario".spec_bytes()
    ||| name == "skip".spec_bytes()
    ||| name == "pending".spec_bytes()
}

pub fn is_rspec_example_group_only(name: &[u8]) -> (r: bool)
    ensures
        r == spec_is_rspec_example_group_only(name@),
{
    eq_str(name, "describe") || eq_str(name, "context") || eq_str(name, "feature") || eq_str(
        name,
        "example_group",
    ) || eq_str(name, "xdescribe") || eq_str(name, "xcontext") || eq_str(name, "xfeature")
        || eq_str(name, "fdescribe") || eq_str(name, "fcontext") || eq_str(name, "ffeature")
}

pub fn is_rspec_shared_group(name: &[u8]) -> (r: bool)
    ensures
        r == spec_is_rspec_shared_group(name@),
{
    eq_str(name, "shared_examples") || eq_str(name, "shared_examples_for") || eq_str(
        name,
        "shared_context",
    )
}

pub fn is_rspec_example_group(name: &[u8]) -> (r: bool)
    ensures
        r == spec_is_rspec_example_group(name@),
{
    is_rspec_example_group_only(name) || is_rspec_shared_group(name)
}

pub fn is_rspec_example(name: &[u8]) -> (r: bool)
    ensures
        r == spec_is_rspec_example(name@),
{
    eq_str(name, "it") || eq_str(name, "specify") || eq_str(name, "example") || eq_str(
        name,
        "scenario",
    ) || eq_str(name, "its") || eq_str(name, "fit") || eq_str(name, "fspecify") || eq_str(
        name,
        "fexample",
    ) || eq_str(name, "fscenario") || eq_str(name, "focus") || eq_str(name, "xit") || eq_str(
        name,
        "xspecify",
    ) || eq_str(name, "xexample") || eq_str(name, "xscenario") || eq_str(name, "skip")
        || eq_str(name, "pending")
}

/// Methods that define a memoized helper.
pub open spec fn spec_is_rspec_let(name: Seq<u8>) -> bool {
    name == "let".spec_bytes() || name == "let!".spec_bytes()
}

/// Methods that define the subject.
pub open spec fn spec_is_rspec_subject(name: Seq<u8>) -> bool {
    name == "subject".spec_bytes() || name == "subject!".spec_bytes()
}

/// Methods that define a hook.
pub open spec fn spec_is_rspec_hook(name: Seq<u8>) -> bool {
    ||| name == "before".spec_bytes()
    ||| name == "after".spec_bytes()
    ||| name == "around".spec_bytes()
    ||| name == "prepend_before".spec_bytes()
    ||| name == "append_before".spec_bytes()
    ||| name == "prepend_after".spec_bytes()
    ||| name == "append_after".spec_bytes()
}

pub fn is_rspec_let(name: &[u8]) -> (r: bool)
    ensures
        r == spec_is_rspec_let(name@),
{
    eq_str(name, "let") || eq_str(name, "let!")
}

pub fn is_rspec_subject(name: &[u8]) -> (r: bool)
    ensures
        r == spec_is_rspec_subject(name@),
{
    eq_str(name, "subject") || eq_str(name, "subject!")
}

pub fn is_rspec_hook(name: &[u8]) -> (r: bool)
    ensures
        r == spec_is_rspec_hook(name@),
{
    eq_str(name, "before") || eq_str(name, "after") || eq_str(name, "around") || eq_str(
        name,
        "prepend_before",
    ) || eq_str(name, "append_before") || eq_str(name, "prepend_after") || eq_str(
        name,
        "append_after",
    )
}

/// The name of a constant read or of the last segment of a constant path.
pub open spec fn spec_constant_name(n: Node) -> Option<Seq<u8>> {
    match n {
        Node::Named { kind: NamedKind::ConstantRead, name, .. } => Some(name@),
        Node::ConstantPath { name, .. } => Some(name@),
        _ => None,
    }
}

pub fn constant_name(n: &Node) -> (r: Option<&Vec<u8>>)
    ensures
        match r {
            Some(v) => spec_constant_name(*n) == Some(v@),
            None => spec_constant_name(*n) is None,
        },
{
    match n {
        Node::Named { kind: NamedKind::ConstantRead, name, .. } => Some(name),
        Node::ConstantPath { name, .. } => Some(name),
        _ => None,
    }
}

/// A heredoc string: a string whose opening delimiter starts with `<<`.
pub open spec fn is_heredoc(src: Seq<u8>, n: Node) -> bool {
    match n {
        Node::Str { opening_loc: Some(o), .. } => starts_with(src_range(src, o.start as int, o.end as int), "<<".spec_bytes()),
        Node::InterpolatedStr { opening_loc: Some(o), .. } => starts_with(src_range(src, o.start as int, o.end as int), "<<".spec_bytes()),
        _ => false,
    }
}

/// Where a string's closing delimiter ends, or 0 without one.
pub open spec fn closing_end(n: Node) -> int {
    match n {
        Node::Str { closing_loc: Some(c), .. } => c.end as int,
        Node::InterpolatedStr { closing_loc: Some(c), .. } => c.end as int,
        _ => 0,
    }
}

/// The largest end of a heredoc's closing delimiter in the tree rooted at
/// `n`, or 0; the search does not look inside heredocs.
pub open spec fn heredoc_max(src: Seq<u8>, n: Node) -> int
    decreases n, children(n).len() + 1,
{
    if is_heredoc(src, n) {
        closing_end(n)
    } else {
        heredoc_max_children(src, n, children(n).len() as int)
    }
}

/// `heredoc_max` over the first `k` children of `n`.
pub open spec fn heredoc_max_children(src: Seq<u8>, n: Node, k: int) -> int
    decreases n, k,
{
    if k <= 0 || k > children(n).len() {
        0
    } else {
        proof {
            lemma_children_decrease(n);
        }
        let a = heredoc_max_children(src, n, k - 1);
        let b = heredoc_max(src, children(n)[k - 1]);
        if b > a { b } else { a }
    }
}

/// The largest end of a heredoc in the tree rooted at `n`, or 0.
pub fn find_max_heredoc_end_offset(src: &[u8], n: &Node) -> (r: usize)
    ensures
        r == heredoc_max(src@, *n),
    decreases n, children(*n).len() + 1,
{
    let open = match n {
        Node::Str { opening_loc: Some(o), .. } => Some(*o),
        Node::InterpolatedStr { opening_loc: Some(o), .. } => Some(*o),
        _ => None,
    };
    match open {
        Some(o) => if starts_with_str(src_range_exec(src, o.start, o.end), "<<") {
            return match n {
                Node::Str { closing_loc: Some(c), .. } => c.end,
                Node::InterpolatedStr { closing_loc: Some(c), .. } => c.end,
                _ => 0,
            };
        },
        None => {},
    }
    let kids = children_of(n);
    let ghost cs = kids@.map_values(|x: &Node| *x);
    let mut m: usize = 0;
    let mut i: usize = 0;
    while i < kids.len()
        invariant
            i <= kids@.len(),
            cs == kids@.map_values(|x: &Node| *x),
            cs == children(*n),
            !is_heredoc(src@, *n),
            m == heredoc_max_children(src@, *n, i as int),
        decreases kids@.len() - i,
    {
        proof {
            lemma_children_decrease(*n);
        }
        assert(cs[i as int] == *kids[i as int]);
        let e = find_max_heredoc_end_offset(src, kids[i]);
        if e > m {
            m = e;
        }
        i = i + 1;
    }
    m
}

} // verus!
