//! Standard/BlockSingleLineBraces: single-line `do ... end` blocks, which
//! should use braces.
use vstd::prelude::*;
use vstd::string::StringSliceAdditionalSpecFns;
use crate::ast::{call_args_exec, flatten, is_other, is_other_exec, preorder, Node};
use crate::bytes::{ends_with, ends_with_str, eq_str, src_range, src_range_exec};
use crate::diagnostic::{
    diagnostic, edits, offense, offenses, str_bytes, Correction, Diagnostic, Edit, Offense,
};
use crate::source::{spec_column_of, spec_line_of, SourceFile};

verus! {

/// The cop.
pub struct BlockSingleLineBraces;

pub open spec fn block_message() -> Seq<u8> {
    "Prefer `{...}` over `do...end` for single-line blocks.".spec_bytes()
}

pub open spec fn spec_is_operator_method(name: Seq<u8>) -> bool {
    ||| name == "|".spec_bytes()
    ||| name == "^".spec_bytes()
    ||| name == "&".spec_bytes()
    ||| name == "<=>".spec_bytes()
    ||| name == "==".spec_bytes()
    ||| name == "===".spec_bytes()
    ||| name == "=~".spec_bytes()
    ||| name == ">".spec_bytes()
    ||| name == ">=".spec_bytes()
    ||| name == "<".spec_bytes()
    ||| name == "<=".spec_bytes()
    ||| name == "<<".spec_bytes()
    ||| name == ">>".spec_bytes()
    ||| name == "+".spec_bytes()
    ||| name == "-".spec_bytes()
    ||| name == "*".spec_bytes()
    ||| name == "/".spec_bytes()
    ||| name == "%".spec_bytes()
    ||| name == "**".spec_bytes()
    ||| name == "~".spec_bytes()
    ||| name == "+@".spec_bytes()
    ||| name == "-@".spec_bytes()
    ||| name == "!@".spec_bytes()
    ||| name == "~@".spec_bytes()
    ||| name == "[]".spec_bytes()
    ||| name == "[]=".spec_bytes()
    ||| name == "!".spec_bytes()
    ||| name == "!=".spec_bytes()
    ||| name == "!~".spec_bytes()
    ||| name == "`".spec_bytes()
}

/// The start offsets of the blocks that an argument makes exempt from
/// correction: a block itself, the blocks in the receiver chain of a call,
/// and those in the pairs of a hash written without braces.
pub open spec fn collect(src: Seq<u8>, n: Node) -> Seq<usize>
    decreases n,
{
    match n {
        Node::Block { loc, .. } => seq![loc.start],
        Node::Call { receiver: Some(r), .. } => collect(src, *r),
        Node::Hash { loc, elements } => if src_range(src, loc.start as int, loc.start + 1)
            != "{".spec_bytes() {
            collect_list(src, elements@)
        } else {
            Seq::empty()
        },
        Node::Assoc { key, value, .. } => collect(src, *key) + collect(src, *value),
        _ => Seq::empty(),
    }
}

pub open spec fn collect_list(src: Seq<u8>, s: Seq<Node>) -> Seq<usize>
    decreases s,
{
    if s.len() == 0 {
        Seq::empty()
    } else {
        collect_list(src, s.drop_last()) + collect(src, s.last())
    }
}

/// A call with arguments written without parentheses, other than an
/// operator or an assignment method.
pub open spec fn has_bare_args(n: Node) -> bool {
    match n {
        Node::Call { name, opening_loc, arguments, .. } => {
            let parenthesized = opening_loc is Some && name@ != "[]".spec_bytes();
            let operator = spec_is_operator_method(name@);
            let assignment = ends_with(name@, "=".spec_bytes()) && !operator;
            arguments is Some && !parenthesized && !operator && !assignment
        },
        _ => false,
    }
}

/// The block offsets a node adds to the exempt ones when it is visited.
pub open spec fn exempted_by(src: Seq<u8>, n: Node) -> Seq<usize> {
    if has_bare_args(n) {
        collect_list(src, n.call_args())
    } else {
        Seq::empty()
    }
}

/// The exempt block offsets after visiting the first `k` nodes.
pub open spec fn exempt_upto(src: Seq<u8>, nodes: Seq<Node>, k: int) -> Seq<usize>
    decreases k,
{
    if k <= 0 {
        Seq::empty()
    } else {
        exempt_upto(src, nodes, k - 1) + exempted_by(src, nodes[k - 1])
    }
}

/// `super` or `super(...)` with a literal block as its last child.
pub open spec fn is_super_with_block(n: Node) -> bool {
    &&& (is_other(n, "SuperNode".spec_bytes()) || is_other(n, "ForwardingSuperNode".spec_bytes()))
    &&& n->Other_children@.len() > 0
    &&& n->Other_children@.last() is Block
}

/// The block a node carries and whether it may be corrected.
pub open spec fn checked_block(n: Node) -> Option<(Node, bool)> {
    match n {
        Node::Call { block: Some(b), .. } => if *b is Block {
            Some((*b, !has_bare_args(n)))
        } else {
            None
        },
        _ => if is_super_with_block(n) {
            Some((n->Other_children@.last(), true))
        } else {
            None
        },
    }
}

/// The offense and corrections for one block.
pub open spec fn block_result(src: Seq<u8>, b: Node, allow: bool, exempt: Seq<usize>) -> (
    Seq<Offense>,
    Seq<Edit>,
) {
    match b {
        Node::Block { loc, opening_loc, closing_loc, .. } => if exempt.contains(loc.start) || src_range(
            src,
            opening_loc.start as int,
            opening_loc.end as int,
        ) != "do".spec_bytes() || spec_line_of(src, opening_loc.start as int) != spec_line_of(
            src,
            closing_loc.start as int,
        ) {
            (Seq::empty(), Seq::empty())
        } else {
            (
                seq![
                    offense(
                        spec_line_of(src, opening_loc.start as int),
                        spec_column_of(src, opening_loc.start as int),
                        block_message(),
                    ),
                ],
                if allow {
                    seq![
                        Edit {
                            start: opening_loc.start as int,
                            end: opening_loc.end as int,
                            replacement: "{".spec_bytes(),
                        },
                        Edit {
                            start: closing_loc.start as int,
                            end: closing_loc.end as int,
                            replacement: "}".spec_bytes(),
                        },
                    ]
                } else {
                    Seq::empty()
                },
            )
        },
        _ => (Seq::empty(), Seq::empty()),
    }
}

/// The offenses and corrections of the first `k` nodes of a traversal.
pub open spec fn results_upto(src: Seq<u8>, nodes: Seq<Node>, k: int) -> (Seq<Offense>, Seq<Edit>)
    decreases k,
{
    if k <= 0 {
        (Seq::empty(), Seq::empty())
    } else {
        let prev = results_upto(src, nodes, k - 1);
        match checked_block(nodes[k - 1]) {
            Some((b, allow)) => {
                let r = block_result(src, b, allow, exempt_upto(src, nodes, k));
                (prev.0 + r.0, prev.1 + r.1)
            },
            None => prev,
        }
    }
}

/// The offenses and corrections in the tree rooted at `root`.
pub open spec fn spec_check_source(src: Seq<u8>, root: Node) -> (Seq<Offense>, Seq<Edit>) {
    results_upto(src, flatten(root), flatten(root).len() as int)
}

pub fn is_operator_method(name: &[u8]) -> (r: bool)
    ensures
        r == spec_is_operator_method(name@),
{
    eq_str(name, "|") || eq_str(name, "^") || eq_str(name, "&") || eq_str(name, "<=>") || eq_str(
        name,
        "==",
    ) || eq_str(name, "===") || eq_str(name, "=~") || eq_str(name, ">") || eq_str(name, ">=")
        || eq_str(name, "<") || eq_str(name, "<=") || eq_str(name, "<<") || eq_str(name, ">>")
        || eq_str(name, "+") || eq_str(name, "-") || eq_str(name, "*") || eq_str(name, "/")
        || eq_str(name, "%") || eq_str(name, "**") || eq_str(name, "~") || eq_str(name, "+@")
        || eq_str(name, "-@") || eq_str(name, "!@") || eq_str(name, "~@") || eq_str(name, "[]")
        || eq_str(name, "[]=") || eq_str(name, "!") || eq_str(name, "!=") || eq_str(name, "!~")
        || eq_str(name, "`")
}

fn collect_exec(src: &[u8], n: &Node, out: &mut Vec<usize>)
    ensures
        final(out)@ == old(out)@ + collect(src@, *n),
    decreases n,
{
    let ghost o = out@;
    match n {
        Node::Block { loc, .. } => {
            let s: usize = loc.start;
            assert(collect(src@, *n) == seq![s]);
            out.push(s);
            assert(out@ =~= o + collect(src@, *n));
        },
        Node::Call { receiver: Some(r), .. } => collect_exec(src, r, out),
        Node::Hash { loc, elements } => {
            let len = src.len();
            let brace = if loc.start < usize::MAX {
                eq_str(src_range_exec(src, loc.start, loc.start + 1), "{")
            } else {
                false
            };
            assert(brace == (src_range(src@, loc.start as int, loc.start + 1) == "{".spec_bytes()))
                by {
                if loc.start == usize::MAX {
                    assert(src_range(src@, loc.start as int, loc.start + 1).len() == 0);
                    reveal_strlit("{");
                }
            }
            if !brace {
                collect_list_exec(src, elements, out);
            }
            assert(out@ =~= o + collect(src@, *n));
        },
        Node::Assoc { key, value, .. } => {
            collect_exec(src, key, out);
            collect_exec(src, value, out);
            assert(out@ =~= o + collect(src@, *n));
        },
        _ => {
            assert(out@ =~= old(out)@ + collect(src@, *n));
        },
    }
}

fn collect_list_exec(src: &[u8], v: &Vec<Node>, out: &mut Vec<usize>)
    ensures
        final(out)@ == old(out)@ + collect_list(src@, v@),
    decreases v,
{
    let ghost o = out@;
    let mut i: usize = 0;
    assert(v@.subrange(0, 0) =~= Seq::<Node>::empty());
    while i < v.len()
        invariant
            i <= v@.len(),
            out@ == o + collect_list(src@, v@.subrange(0, i as int)),
        decreases v@.len() - i,
    {
        assert(decreases_to!(v => v@));
        collect_exec(src, &v[i], out);
        assert(v@.subrange(0, i + 1).drop_last() =~= v@.subrange(0, i as int));
        i = i + 1;
    }
    assert(v@.subrange(0, v@.len() as int) =~= v@);
}

fn has_bare_args_exec(n: &Node) -> (r: bool)
    ensures
        r == has_bare_args(*n),
{
    match n {
        Node::Call { name, opening_loc, arguments, .. } => {
            let parenthesized = opening_loc.is_some() && !eq_str(name.as_slice(), "[]");
            let operator = is_operator_method(name.as_slice());
            let assignment = ends_with_str(name.as_slice(), "=") && !operator;
            arguments.is_some() && !parenthesized && !operator && !assignment
        },
        _ => false,
    }
}

fn checked_block_exec(n: &Node) -> (r: Option<(&Node, bool)>)
    ensures
        match r {
            Some((b, allow)) => checked_block(*n) == Some((*b, allow)),
            None => checked_block(*n) is None,
        },
{
    match n {
        Node::Call { block: Some(b), .. } => match &**b {
            Node::Block { .. } => Some((&**b, !has_bare_args_exec(n))),
            _ => None,
        },
        Node::Call { .. } => None,
        Node::Other { children, .. } => {
            if (is_other_exec(n, "SuperNode") || is_other_exec(n, "ForwardingSuperNode"))
                && children.len() > 0 {
                let last = &children[children.len() - 1];
                match last {
                    Node::Block { .. } => Some((last, true)),
                    _ => None,
                }
            } else {
                None
            }
        },
        _ => None,
    }
}

fn contains_usize(v: &Vec<usize>, x: usize) -> (r: bool)
    ensures
        r == v@.contains(x),
{
    let mut i: usize = 0;
    while i < v.len()
        invariant
            i <= v@.len(),
            forall|j: int| 0 <= j < i ==> v@[j] != x,
        decreases v@.len() - i,
    {
        if v[i] == x {
            return true;
        }
        i = i + 1;
    }
    false
}

impl BlockSingleLineBraces {
    pub fn name(&self) -> &'static str {
        "Standard/BlockSingleLineBraces"
    }

    fn check_block(
        &self,
        source: &SourceFile,
        b: &Node,
        allow: bool,
        exempt: &Vec<usize>,
        out: &mut Vec<Diagnostic>,
        fixes: &mut Vec<Correction>,
    )
        ensures
            ({
                let r = block_result(source.text(), *b, allow, exempt@);
                offenses(final(out)@) == offenses(old(out)@) + r.0 && edits(final(fixes)@)
                    == edits(old(fixes)@) + r.1
            }),
    {
        let (loc, opening_loc, closing_loc) = match b {
            Node::Block { loc, opening_loc, closing_loc, .. } => (loc, opening_loc, closing_loc),
            _ => {
                assert(offenses(out@) =~= offenses(out@) + Seq::<Offense>::empty());
                assert(edits(fixes@) =~= edits(fixes@) + Seq::<Edit>::empty());
                return;
            },
        };
        let text = source.as_bytes();
        if contains_usize(exempt, loc.start) || !eq_str(
            src_range_exec(text, opening_loc.start, opening_loc.end),
            "do",
        ) {
            assert(offenses(out@) =~= offenses(out@) + Seq::<Offense>::empty());
            assert(edits(fixes@) =~= edits(fixes@) + Seq::<Edit>::empty());
            return;
        }
        let (open_line, open_col) = source.position(opening_loc.start);
        let (close_line, _) = source.position(closing_loc.start);
        if open_line != close_line {
            assert(offenses(out@) =~= offenses(out@) + Seq::<Offense>::empty());
            assert(edits(fixes@) =~= edits(fixes@) + Seq::<Edit>::empty());
            return;
        }
        let ghost o = offenses(out@);
        let ghost e = edits(fixes@);
        out.push(
            diagnostic(
                open_line,
                open_col,
                str_bytes("Prefer `{...}` over `do...end` for single-line blocks."),
            ),
        );
        assert(offenses(out@) =~= o + block_result(source.text(), *b, allow, exempt@).0);
        if allow {
            fixes.push(
                Correction {
                    start: opening_loc.start,
                    end: opening_loc.end,
                    replacement: str_bytes("{"),
                },
            );
            fixes.push(
                Correction {
                    start: closing_loc.start,
                    end: closing_loc.end,
                    replacement: str_bytes("}"),
                },
            );
        }
        assert(edits(fixes@) =~= e + block_result(source.text(), *b, allow, exempt@).1);
    }

    /// The offenses and corrections in the tree rooted at `root`, in
    /// traversal order.
    pub fn check_source(&self, source: &SourceFile, root: &Node) -> (r: (
        Vec<Diagnostic>,
        Vec<Correction>,
    ))
        ensures
            (offenses(r.0@), edits(r.1@)) == spec_check_source(source.text(), *root),
    {
        let nodes = preorder(root);
        let ghost ns = nodes@.map_values(|x: &Node| *x);
        let ghost src = source.text();
        let mut out: Vec<Diagnostic> = Vec::new();
        let mut fixes: Vec<Correction> = Vec::new();
        let mut exempt: Vec<usize> = Vec::new();
        let mut i: usize = 0;
        assert(offenses(out@) =~= Seq::<Offense>::empty());
        assert(edits(fixes@) =~= Seq::<Edit>::empty());
        while i < nodes.len()
            invariant
                i <= nodes@.len(),
                ns == nodes@.map_values(|x: &Node| *x),
                ns == flatten(*root),
                src == source.text(),
                exempt@ == exempt_upto(src, ns, i as int),
                results_upto(src, ns, i as int) == (offenses(out@), edits(fixes@)),
            decreases nodes@.len() - i,
        {
            let n = nodes[i];
            assert(ns[i as int] == *n);
            if has_bare_args_exec(n) {
                let args = call_args_exec(n);
                let mut j: usize = 0;
                let ghost e0 = exempt@;
                assert(args@.subrange(0, 0) =~= Seq::<Node>::empty());
                while j < args.len()
                    invariant
                        j <= args@.len(),
                        src == source.text(),
                        exempt@ == e0 + collect_list(src, args@.subrange(0, j as int)),
                    decreases args@.len() - j,
                {
                    collect_exec(source.as_bytes(), &args[j], &mut exempt);
                    assert(args@.subrange(0, j + 1).drop_last() =~= args@.subrange(0, j as int));
                    j = j + 1;
                }
                assert(args@.subrange(0, args@.len() as int) =~= args@);
            }
            assert(exempt@ =~= exempt_upto(src, ns, i + 1));
            match checked_block_exec(n) {
                Some((b, allow)) => {
                    self.check_block(source, b, allow, &exempt, &mut out, &mut fixes);
                },
                None => {},
            }
            i = i + 1;
        }
        assert(ns.len() == nodes@.len());
        (out, fixes)
    }
}

} // verus!
