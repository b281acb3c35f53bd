//! RSpec/ExampleLength: an example whose block body has more than `Max`
//! lines.
//!
//! The lines strictly between the block's first and last line count, but
//! blank lines, and comment lines unless `CountComments` is set.  With
//! `CountAsOne`, each multi-line array, hash, string or block-less method
//! call among the body's statements (or inside the arguments and receivers
//! of its calls) counts as one line.
use vstd::prelude::*;
use vstd::string::StringSliceAdditionalSpecFns;
use crate::ast::{call_args_exec, Node};
use crate::bytes::{eq_str, views};
use crate::cop::rspec::empty_line_after_example::{is_blank_line, is_blank_line_exec, is_comment_line, spec_is_comment_line};
use crate::cop::util::{is_rspec_example, spec_is_rspec_example};
use crate::diagnostic::{decimal, decimal_bytes, diagnostic, offense, offenses, push_bytes, push_str, Diagnostic, Offense};
use crate::source::{line_bytes, line_count, spec_column_of, spec_line_of, Loc, SourceFile};

verus! {

/// The cop.
pub struct ExampleLength;

/// `a + b`, saturating at the largest `usize`.
pub open spec fn sat_add(a: int, b: int) -> int {
    if a + b > usize::MAX { usize::MAX as int } else { a + b }
}

/// Whether line `l` of the text counts toward the length.
pub open spec fn counts(src: Seq<u8>, l: int, count_comments: bool) -> bool {
    1 <= l <= line_count(src) && !is_blank_line(line_bytes(src, l)) && (count_comments || !spec_is_comment_line(line_bytes(src, l)))
}

/// The number of counted lines among lines `from..to`.
pub open spec fn counted_lines(src: Seq<u8>, from: int, to: int, count_comments: bool) -> nat
    decreases to - from,
{
    if to <= from {
        0
    } else {
        counted_lines(src, from, to - 1, count_comments) + if counts(src, to - 1, count_comments) { 1nat } else { 0nat }
    }
}

/// The lines strictly between the lines of offsets `a` and `b` that count.
pub open spec fn count_body_lines(src: Seq<u8>, a: int, b: int, count_comments: bool) -> nat {
    counted_lines(src, spec_line_of(src, a) + 1, spec_line_of(src, b), count_comments)
}

/// The number of lines a node spans, from its start to its last byte.
pub open spec fn line_span(src: Seq<u8>, l: Loc) -> int {
    let e = if l.end - 1 > l.start { l.end - 1 } else { l.start as int };
    let d = spec_line_of(src, e) - spec_line_of(src, l.start as int);
    (if d > 0 { d } else { 0 }) + 1
}

/// What a multi-line node saves when it counts as one line.
pub open spec fn span_saving(src: Seq<u8>, l: Loc) -> int {
    if line_span(src, l) > 1 { line_span(src, l) - 1 } else { 0 }
}

pub open spec fn has_kind(kinds: Seq<Seq<u8>>, k: Seq<u8>) -> bool {
    exists|i: int| 0 <= i < kinds.len() && kinds[i] == k
}

/// The lines saved in node `n` by `CountAsOne`.
pub open spec fn node_reduction(src: Seq<u8>, kinds: Seq<Seq<u8>>, n: Node) -> int
    decreases n, 1int,
{
    if has_kind(kinds, "array".spec_bytes()) && n is Array {
        span_saving(src, n.spec_loc())
    } else if has_kind(kinds, "hash".spec_bytes()) && n is Hash {
        span_saving(src, n.spec_loc())
    } else if has_kind(kinds, "heredoc".spec_bytes()) && (n is InterpolatedStr || n is Str) {
        span_saving(src, n.spec_loc())
    } else if has_kind(kinds, "method_call".spec_bytes()) && n matches Node::Call { block: None, .. } {
        span_saving(src, n.spec_loc())
    } else {
        match n {
            Node::Call { arguments, receiver, .. } => {
                let a = match arguments {
                    Some(b) => match *b {
                        Node::Arguments { arguments: args, .. } => list_reduction(src, kinds, *b, args@.len() as int),
                        _ => 0,
                    },
                    None => 0,
                };
                match receiver {
                    Some(r) => sat_add(a, node_reduction(src, kinds, *r)),
                    None => a,
                }
            },
            _ => 0,
        }
    }
}

/// `node_reduction` summed over the first `k` arguments of an argument
/// list `a`.
pub open spec fn list_reduction(src: Seq<u8>, kinds: Seq<Seq<u8>>, a: Node, k: int) -> int
    decreases a, k,
{
    match a {
        Node::Arguments { arguments: args, .. } => if k <= 0 || k > args@.len() {
            0
        } else {
            proof {
                crate::ast::lemma_children_decrease(a);
            }
            sat_add(list_reduction(src, kinds, a, k - 1), node_reduction(src, kinds, args@[k - 1]))
        },
        _ => 0,
    }
}

/// `node_reduction` summed over the first `k` statements.
pub open spec fn stmts_reduction(src: Seq<u8>, kinds: Seq<Seq<u8>>, stmts: Seq<Node>, k: int) -> int
    decreases k,
{
    if k <= 0 || k > stmts.len() {
        0
    } else {
        sat_add(stmts_reduction(src, kinds, stmts, k - 1), node_reduction(src, kinds, stmts[k - 1]))
    }
}

/// The lines the block's body saves by `CountAsOne`.
pub open spec fn block_reduction(src: Seq<u8>, kinds: Seq<Seq<u8>>, b: Node) -> int {
    match b {
        Node::Block { body: Some(body), .. } => match *body {
            Node::Statements { body: stmts, .. } => stmts_reduction(src, kinds, stmts@, stmts@.len() as int),
            _ => 0,
        },
        _ => 0,
    }
}

/// The length of an example's block as counted.
pub open spec fn example_length(src: Seq<u8>, b: Node, count_comments: bool, kinds: Seq<Seq<u8>>) -> int {
    let l = b.spec_loc();
    let count = count_body_lines(src, l.start as int, if l.end - 1 > l.start { l.end - 1 } else { l.start as int }, count_comments);
    if kinds.len() == 0 {
        count as int
    } else {
        let r = block_reduction(src, kinds, b);
        if count >= r { count - r } else { 0 }
    }
}

/// The offense at an example (`it`, `specify`, ... with a block and no
/// receiver) longer than `max`.
pub open spec fn spec_check_node(src: Seq<u8>, n: Node, max: int, count_comments: bool, kinds: Seq<Seq<u8>>) -> Seq<Offense> {
    match n {
        Node::Call { name, receiver: None, block: Some(b), loc, .. } => if spec_is_rspec_example(name@) && *b is Block {
            let len = example_length(src, *b, count_comments, kinds);
            if len > max {
                seq![offense(spec_line_of(src, loc.start as int), spec_column_of(src, loc.start as int),
                    "Example has too many lines. [".spec_bytes() + decimal(len as nat) + "/".spec_bytes() + decimal(max as nat) + "]".spec_bytes())]
            } else {
                Seq::empty()
            }
        } else {
            Seq::empty()
        },
        _ => Seq::empty(),
    }
}

fn has_kind_exec(kinds: &Vec<Vec<u8>>, k: &str) -> (r: bool)
    ensures
        r == has_kind(views(kinds@), k.spec_bytes()),
{
    let ghost w = views(kinds@);
    let mut i: usize = 0;
    while i < kinds.len()
        invariant
            i <= kinds@.len(),
            w == views(kinds@),
            forall|j: int| 0 <= j < i ==> w[j] != k.spec_bytes(),
        decreases kinds@.len() - i,
    {
        assert(w[i as int] == kinds@[i as int]@);
        if eq_str(kinds[i].as_slice(), k) {
            return true;
        }
        i = i + 1;
    }
    false
}

fn sat_add_exec(a: usize, b: usize) -> (r: usize)
    ensures
        r == sat_add(a as int, b as int),
{
    if a > usize::MAX - b { usize::MAX } else { a + b }
}

fn span_saving_exec(source: &SourceFile, l: Loc) -> (r: usize)
    ensures
        r == span_saving(source.text(), l),
{
    let e = if l.end > 0 && l.end - 1 > l.start { l.end - 1 } else { l.start };
    let (sl, _) = source.position(l.start);
    let (el, _) = source.position(e);
    let d = if el > sl { el - sl } else { 0 };
    if d > 0 { d } else { 0 }
}

/// Which of the kinds `array`, `hash`, `heredoc`, `method_call` are named
/// in `CountAsOne`.
struct Kinds {
    array: bool,
    hash: bool,
    heredoc: bool,
    method_call: bool,
}

impl Kinds {
    spec fn matches_list(&self, kinds: Seq<Seq<u8>>) -> bool {
        &&& self.array == has_kind(kinds, "array".spec_bytes())
        &&& self.hash == has_kind(kinds, "hash".spec_bytes())
        &&& self.heredoc == has_kind(kinds, "heredoc".spec_bytes())
        &&& self.method_call == has_kind(kinds, "method_call".spec_bytes())
    }
}

fn node_reduction_exec(source: &SourceFile, ks: &Kinds, Ghost(kinds): Ghost<Seq<Seq<u8>>>, n: &Node) -> (r: usize)
    requires
        ks.matches_list(kinds),
    ensures
        r == node_reduction(source.text(), kinds, *n),
    decreases n,
{
    let special = match n {
        Node::Array { .. } => ks.array,
        Node::Hash { .. } => ks.hash,
        Node::InterpolatedStr { .. } => ks.heredoc,
        Node::Str { .. } => ks.heredoc,
        Node::Call { block: None, .. } => ks.method_call,
        _ => false,
    };
    if special {
        return span_saving_exec(source, n.loc());
    }
    match n {
        Node::Call { arguments, receiver, .. } => {
            let a: usize = match arguments {
                Some(b) => match &**b {
                    Node::Arguments { arguments: args, .. } => {
                        let mut t: usize = 0;
                        let mut i: usize = 0;
                        while i < args.len()
                            invariant
                                i <= args@.len(),
                                ks.matches_list(kinds),
                                **b matches Node::Arguments { arguments: aa, .. } && aa@ == args@,
                                *n matches Node::Call { arguments: Some(bb), .. } && *bb == **b,
                                t == list_reduction(source.text(), kinds, **b, i as int),
                            decreases args@.len() - i,
                        {
                            proof {
                                crate::ast::lemma_children_decrease(**b);
                                assert(decreases_to!(*n => **b));
                            }
                            assert(crate::ast::children(**b)[i as int] == args@[i as int]);
                            assert(decreases_to!(**b => args@[i as int]));
                            let x = node_reduction_exec(source, ks, Ghost(kinds), &args[i]);
                            t = sat_add_exec(t, x);
                            i = i + 1;
                        }
                        t
                    },
                    _ => 0,
                },
                None => 0,
            };
            match receiver {
                Some(r) => {
                    let x = node_reduction_exec(source, ks, Ghost(kinds), r);
                    sat_add_exec(a, x)
                },
                None => a,
            }
        },
        _ => 0,
    }
}

fn count_body_lines_exec(source: &SourceFile, a: usize, b: usize, count_comments: bool) -> (r: usize)
    ensures
        r == count_body_lines(source.text(), a as int, b as int, count_comments),
{
    let (sl, _) = source.position(a);
    let (el, _) = source.position(b);
    let mut c: usize = 0;
    if sl >= el {
        return 0;
    }
    let mut l: usize = sl + 1;
    while l < el
        invariant
            sl + 1 <= l <= el,
            c == counted_lines(source.text(), sl + 1, l as int, count_comments),
            c <= l - sl - 1,
        decreases el - l,
    {
        let counted = match source.line_at(l) {
            Some(line) => !is_blank_line_exec(line.as_slice()) && (count_comments || !is_comment_line(line.as_slice())),
            None => false,
        };
        if counted {
            c = c + 1;
        }
        l = l + 1;
    }
    c
}

impl ExampleLength {
    pub fn name(&self) -> &'static str {
        "RSpec/ExampleLength"
    }

    /// The offense at `node`, with the configured `Max`, `CountComments`
    /// and `CountAsOne`.
    pub fn check_node(
        &self,
        source: &SourceFile,
        node: &Node,
        max: usize,
        count_comments: bool,
        count_as_one: &Vec<Vec<u8>>,
    ) -> (r: Vec<Diagnostic>)
        ensures
            offenses(r@) == spec_check_node(source.text(), *node, max as int, count_comments, views(count_as_one@)),
    {
        let mut out: Vec<Diagnostic> = Vec::new();
        let ghost kinds = views(count_as_one@);
        match node {
            Node::Call { name, receiver: None, block: Some(b), loc, .. } => {
                if !is_rspec_example(name.as_slice()) {
                    return out;
                }
                let (body, bl) = match &**b {
                    Node::Block { body, loc: bl, .. } => (body, *bl),
                    _ => {
                        return out;
                    },
                };
                let e = if bl.end > 0 && bl.end - 1 > bl.start { bl.end - 1 } else { bl.start };
                let count = count_body_lines_exec(source, bl.start, e, count_comments);
                let len: usize = if count_as_one.len() == 0 {
                    count
                } else {
                    let ks = Kinds {
                        array: has_kind_exec(count_as_one, "array"),
                        hash: has_kind_exec(count_as_one, "hash"),
                        heredoc: has_kind_exec(count_as_one, "heredoc"),
                        method_call: has_kind_exec(count_as_one, "method_call"),
                    };
                    let red: usize = match body {
                        Some(bd) => match &**bd {
                            Node::Statements { body: stmts, .. } => {
                                let mut t: usize = 0;
                                let mut i: usize = 0;
                                while i < stmts.len()
                                    invariant
                                        i <= stmts@.len(),
                                        ks.matches_list(kinds),
                                        t == stmts_reduction(source.text(), kinds, stmts@, i as int),
                                    decreases stmts@.len() - i,
                                {
                                    let x = node_reduction_exec(source, &ks, Ghost(kinds), &stmts[i]);
                                    t = sat_add_exec(t, x);
                                    i = i + 1;
                                }
                                t
                            },
                            _ => 0,
                        },
                        None => 0,
                    };
                    if count >= red { count - red } else { 0 }
                };
                assert(len == example_length(source.text(), **b, count_comments, kinds));
                if len > max {
                    let (line, column) = source.position(loc.start);
                    let mut m: Vec<u8> = Vec::new();
                    push_str(&mut m, "Example has too many lines. [");
                    push_bytes(&mut m, decimal_bytes(len).as_slice());
                    push_str(&mut m, "/");
                    push_bytes(&mut m, decimal_bytes(max).as_slice());
                    push_str(&mut m, "]");
                    out.push(diagnostic(line, column, m));
                }
            },
            _ => {},
        }
        assert(offenses(out@) =~= spec_check_node(source.text(), *node, max as int, count_comments, kinds));
        out
    }
}

} // verus!
