//! Style/EmptyCaseCondition: a `case` without a subject, which an
//! `if`/`elsif` chain says more plainly.
//!
//! Not reported where the `case` is the direct value of `return`, `break`,
//! `next` or a method call, nor when a branch holds a `return`.  The
//! correction turns `case ... when` into `if`, later `when`s into `elsif`, and
//! `when a, b` into `a || b`.
use vstd::prelude::*;
use vstd::string::StringSliceAdditionalSpecFns;
use crate::ast::{children, children_of, flatten, is_other, is_other_exec, lemma_children_decrease, preorder, Node};
use crate::bytes::{lossy_utf8, src_range, src_range_exec, utf8_lossy};
use crate::diagnostic::{
    diagnostic, edits, offense, offenses, push_bytes, push_str, str_bytes, Correction, Diagnostic, Edit, Offense,
};
use crate::source::{spec_column_of, spec_line_of, SourceFile};

verus! {

/// The cop.
pub struct EmptyCaseCondition;

/// A `case` node.
pub open spec fn is_case(n: Node) -> bool {
    is_other(n, "CaseNode".spec_bytes())
}

pub open spec fn is_when(n: Node) -> bool {
    is_other(n, "WhenNode".spec_bytes())
}

/// A `case` without a subject: its first child is already a `when`.
pub open spec fn is_empty_case(n: Node) -> bool {
    is_case(n) && children(n).len() > 0 && is_when(children(n)[0])
}

/// Nodes under which a `case` is not reported: `return`, `break`, `next`
/// and method calls.
pub open spec fn makes_unsupported(n: Node) -> bool {
    n is Call || is_other(n, "ReturnNode".spec_bytes()) || is_other(n, "BreakNode".spec_bytes())
        || is_other(n, "NextNode".spec_bytes())
}

/// Nodes that lift that restriction for what they contain.
pub open spec fn makes_supported(n: Node) -> bool {
    ||| is_case(n)
    ||| n is Def
    ||| n is Block
    ||| n is If
    ||| n is Unless
    ||| n is For
    ||| is_other(n, "LambdaNode".spec_bytes())
    ||| is_other(n, "WhileNode".spec_bytes())
    ||| is_other(n, "UntilNode".spec_bytes())
    ||| is_other(n, "BeginNode".spec_bytes())
    ||| is_other(n, "ClassNode".spec_bytes())
    ||| is_other(n, "ModuleNode".spec_bytes())
    ||| is_other(n, "SingletonClassNode".spec_bytes())
}

/// Whether the children of `n` are in an unsupported position.
pub open spec fn child_state(n: Node, unsupported: bool) -> bool {
    if makes_unsupported(n) {
        true
    } else if makes_supported(n) {
        false
    } else {
        unsupported
    }
}

/// Whether the tree rooted at `n` holds a `return`.
pub open spec fn has_return(n: Node) -> bool {
    exists|i: int| 0 <= i < flatten(n).len() && is_other(#[trigger] flatten(n)[i], "ReturnNode".spec_bytes())
}

/// The body of a `when` or `else` branch.
pub open spec fn branch_body(b: Node) -> Option<Node> {
    if is_when(b) && children(b).len() > 0 && children(b).last() is Statements {
        Some(children(b).last())
    } else {
        match b {
            Node::Else { statements: Some(s), .. } => Some(*s),
            _ => None,
        }
    }
}

/// A `when` or `else` branch whose body holds a `return`.
pub open spec fn branch_returns(b: Node) -> bool {
    (is_when(b) || b is Else) && match branch_body(b) {
        Some(body) => has_return(body),
        None => false,
    }
}

/// Some branch among `bs` holds a `return`.
pub open spec fn branches_return(bs: Seq<Node>) -> bool {
    exists|i: int| 0 <= i < bs.len() && branch_returns(#[trigger] bs[i])
}

/// The conditions of a `when`: its children but the body.
pub open spec fn when_conditions(w: Node) -> Seq<Node> {
    if children(w).len() > 0 && children(w).last() is Statements {
        children(w).drop_last()
    } else {
        children(w)
    }
}

/// The source texts of `cs`, joined by ` || `.
pub open spec fn joined(src: Seq<u8>, cs: Seq<Node>) -> Seq<u8>
    decreases cs.len(),
{
    if cs.len() == 0 {
        Seq::empty()
    } else if cs.len() == 1 {
        utf8_lossy(src_range(src, cs[0].spec_loc().start as int, cs[0].spec_loc().end as int))
    } else {
        joined(src, cs.drop_last()) + " || ".spec_bytes() + utf8_lossy(
            src_range(src, cs.last().spec_loc().start as int, cs.last().spec_loc().end as int),
        )
    }
}

/// `when` → `elsif` for each `when` among `cs` after the first child.
pub open spec fn elsif_edits(cs: Seq<Node>) -> Seq<Edit>
    decreases cs.len(),
{
    if cs.len() == 0 {
        Seq::empty()
    } else {
        elsif_edits(cs.drop_last()) + if cs.len() > 1 && is_when(cs.last()) {
            seq![Edit { start: cs.last().spec_loc().start as int, end: cs.last().spec_loc().start + 4, replacement: "elsif".spec_bytes() }]
        } else {
            Seq::empty()
        }
    }
}

/// `a, b` → `a || b` for each `when` among `cs` with more than one condition.
pub open spec fn join_edits(src: Seq<u8>, cs: Seq<Node>) -> Seq<Edit>
    decreases cs.len(),
{
    if cs.len() == 0 {
        Seq::empty()
    } else {
        let conds = when_conditions(cs.last());
        join_edits(src, cs.drop_last()) + if is_when(cs.last()) && conds.len() > 1 {
            seq![Edit { start: conds[0].spec_loc().start as int, end: conds.last().spec_loc().end as int, replacement: joined(src, conds) }]
        } else {
            Seq::empty()
        }
    }
}

/// Every node of the tree starts at least four bytes before the largest
/// offset, so that the end of a `when` keyword is an offset.
pub open spec fn starts_fit(n: Node) -> bool
    decreases n, children(n).len() + 1,
{
    n.spec_loc().start + 4 <= usize::MAX && children_fit(n, children(n).len() as int)
}

pub open spec fn children_fit(n: Node, k: int) -> bool
    decreases n, k,
{
    if k <= 0 || k > children(n).len() {
        true
    } else {
        proof {
            lemma_children_decrease(n);
        }
        children_fit(n, k - 1) && starts_fit(children(n)[k - 1])
    }
}

proof fn lemma_children_fit(n: Node, k: int, j: int)
    requires
        children_fit(n, k),
        0 <= j < k <= children(n).len(),
    ensures
        starts_fit(children(n)[j]),
    decreases k,
{
    if j < k - 1 {
        lemma_children_fit(n, k - 1, j);
    }
}

pub open spec fn case_message() -> Seq<u8> {
    "Do not use empty `case` condition, instead use an `if` expression.".spec_bytes()
}

/// Whether the `case` at `n` is reported.
pub open spec fn is_reported(n: Node, unsupported: bool) -> bool {
    is_empty_case(n) && !unsupported && !branches_return(children(n))
}

pub open spec fn own_offense(src: Seq<u8>, n: Node, unsupported: bool) -> Seq<Offense> {
    if is_reported(n, unsupported) {
        seq![offense(spec_line_of(src, n.spec_loc().start as int), spec_column_of(src, n.spec_loc().start as int), case_message())]
    } else {
        Seq::empty()
    }
}

pub open spec fn own_edits(src: Seq<u8>, n: Node, unsupported: bool) -> Seq<Edit> {
    let cs = children(n);
    if is_reported(n, unsupported) {
        seq![Edit { start: n.spec_loc().start as int, end: cs[0].spec_loc().start + 4, replacement: "if".spec_bytes() }]
            + elsif_edits(cs) + join_edits(src, cs)
    } else {
        Seq::empty()
    }
}

pub open spec fn tree_result(src: Seq<u8>, n: Node, unsupported: bool) -> (Seq<Offense>, Seq<Edit>)
    decreases n, children(n).len() + 1,
{
    let rest = children_result(src, n, children(n).len() as int, child_state(n, unsupported));
    (own_offense(src, n, unsupported) + rest.0, own_edits(src, n, unsupported) + rest.1)
}

pub open spec fn children_result(src: Seq<u8>, n: Node, k: int, unsupported: bool) -> (Seq<Offense>, Seq<Edit>)
    decreases n, k,
{
    if k <= 0 || k > children(n).len() {
        (Seq::empty(), Seq::empty())
    } else {
        proof {
            lemma_children_decrease(n);
        }
        let a = children_result(src, n, k - 1, unsupported);
        let b = tree_result(src, children(n)[k - 1], unsupported);
        (a.0 + b.0, a.1 + b.1)
    }
}

/// The offenses and corrections of the whole tree, in traversal order.
pub open spec fn spec_check_source(src: Seq<u8>, root: Node) -> (Seq<Offense>, Seq<Edit>) {
    tree_result(src, root, false)
}

fn has_return_exec(n: &Node) -> (r: bool)
    ensures
        r == has_return(*n),
{
    let nodes = preorder(n);
    let ghost ns = nodes@.map_values(|x: &Node| *x);
    let mut i: usize = 0;
    while i < nodes.len()
        invariant
            i <= nodes@.len(),
            ns == nodes@.map_values(|x: &Node| *x),
            ns == flatten(*n),
            forall|j: int| 0 <= j < i ==> !is_other(#[trigger] ns[j], "ReturnNode".spec_bytes()),
        decreases nodes@.len() - i,
    {
        assert(ns[i as int] == *nodes[i as int]);
        if is_other_exec(nodes[i], "ReturnNode") {
            return true;
        }
        i = i + 1;
    }
    false
}

fn branch_body_exec(b: &Node) -> (r: Option<&Node>)
    ensures
        match r {
            Some(x) => branch_body(*b) == Some(*x),
            None => branch_body(*b) is None,
        },
{
    match b {
        Node::Other { children: cs, .. } => {
            if is_other_exec(b, "WhenNode") && cs.len() > 0 {
                let last = &cs[cs.len() - 1];
                if let Node::Statements { .. } = last {
                    return Some(last);
                }
            }
            None
        },
        Node::Else { statements: Some(s), .. } => Some(&**s),
        _ => None,
    }
}

fn branches_return_exec(bs: &Vec<Node>) -> (r: bool)
    ensures
        r == branches_return(bs@),
{
    let mut i: usize = 0;
    while i < bs.len()
        invariant
            i <= bs@.len(),
            forall|j: int| 0 <= j < i ==> !branch_returns(#[trigger] bs@[j]),
        decreases bs@.len() - i,
    {
        let b = &bs[i];
        let kind = is_other_exec(b, "WhenNode") || match b {
            Node::Else { .. } => true,
            _ => false,
        };
        if kind {
            match branch_body_exec(b) {
                Some(body) => if has_return_exec(body) {
                    return true;
                },
                None => {},
            }
        }
        i = i + 1;
    }
    false
}

fn when_conditions_exec(w: &Node) -> (r: &[Node])
    requires
        is_when(*w),
    ensures
        r@ == when_conditions(*w),
{
    match w {
        Node::Other { children: cs, .. } => {
            if cs.len() > 0 {
                if let Node::Statements { .. } = &cs[cs.len() - 1] {
                    return vstd::slice::slice_subrange(cs.as_slice(), 0, cs.len() - 1);
                }
            }
            cs.as_slice()
        },
        _ => {
            let e: &[Node] = &[];
            assert(e@ =~= when_conditions(*w));
            e
        },
    }
}

fn joined_exec(src: &[u8], cs: &[Node]) -> (r: Vec<u8>)
    ensures
        r@ == joined(src@, cs@),
{
    let mut m: Vec<u8> = Vec::new();
    let mut i: usize = 0;
    while i < cs.len()
        invariant
            i <= cs@.len(),
            m@ == joined(src@, cs@.take(i as int)),
        decreases cs@.len() - i,
    {
        assert(cs@.take(i + 1).drop_last() =~= cs@.take(i as int));
        assert(cs@.take(i + 1).last() == cs@[i as int]);
        if i > 0 {
            push_str(&mut m, " || ");
        }
        let l = cs[i].loc();
        let t = lossy_utf8(src_range_exec(src, l.start, l.end));
        push_bytes(&mut m, t.as_slice());
        proof {
            if i == 0 {
                assert(cs@.take(1)[0] == cs@[0]);
            }
        }
        assert(m@ =~= joined(src@, cs@.take(i + 1)));
        i = i + 1;
    }
    assert(cs@.take(cs@.len() as int) =~= cs@);
    m
}

impl EmptyCaseCondition {
    pub fn name(&self) -> &'static str {
        "Style/EmptyCaseCondition"
    }

    /// The offense and corrections of the `case` node `n`.
    #[verifier::rlimit(30)]
    fn check_case(
        &self,
        source: &SourceFile,
        n: &Node,
        unsupported: bool,
        out: &mut Vec<Diagnostic>,
        fixes: &mut Vec<Correction>,
    )
        requires
            starts_fit(*n),
        ensures
            offenses(final(out)@) == offenses(old(out)@) + own_offense(source.text(), *n, unsupported),
            edits(final(fixes)@) == edits(old(fixes)@) + own_edits(source.text(), *n, unsupported),
    {
        let ghost o = offenses(out@);
        let ghost e = edits(fixes@);
        let ghost src = source.text();
        let cs = match n {
            Node::Other { children: cs, .. } => cs,
            _ => {
                assert(offenses(out@) =~= o + own_offense(src, *n, unsupported));
                assert(edits(fixes@) =~= e + own_edits(src, *n, unsupported));
                return;
            },
        };
        assert(children(*n) == cs@);
        if unsupported || !is_other_exec(n, "CaseNode") || cs.len() == 0 || !is_other_exec(&cs[0], "WhenNode")
            || branches_return_exec(cs) {
            assert(offenses(out@) =~= o + own_offense(src, *n, unsupported));
            assert(edits(fixes@) =~= e + own_edits(src, *n, unsupported));
            return;
        }
        let start = n.loc().start;
        let (line, column) = source.position(start);
        out.push(diagnostic(line, column, str_bytes("Do not use empty `case` condition, instead use an `if` expression.")));
        assert(offenses(out@) =~= o + own_offense(src, *n, unsupported));
        proof {
            lemma_children_fit(*n, cs@.len() as int, 0);
        }
        let w0 = cs[0].loc().start;
        fixes.push(Correction { start, end: w0 + 4, replacement: str_bytes("if") });
        let ghost e1 = edits(fixes@);
        let mut i: usize = 0;
        while i < cs.len()
            invariant
                i <= cs@.len(),
                cs@ == children(*n),
                children_fit(*n, cs@.len() as int),
                edits(fixes@) == e1 + elsif_edits(cs@.take(i as int)),
            decreases cs@.len() - i,
        {
            assert(cs@.take(i + 1).drop_last() =~= cs@.take(i as int));
            assert(cs@.take(i + 1).last() == cs@[i as int]);
            if i > 0 && is_other_exec(&cs[i], "WhenNode") {
                proof {
                    lemma_children_fit(*n, cs@.len() as int, i as int);
                }
                let s = cs[i].loc().start;
                let ghost before = edits(fixes@);
                fixes.push(Correction { start: s, end: s + 4, replacement: str_bytes("elsif") });
                assert(edits(fixes@) =~= before + seq![edits(fixes@).last()]);
            }
            assert(edits(fixes@) =~= e1 + elsif_edits(cs@.take(i + 1)));
            i = i + 1;
        }
        assert(cs@.take(cs@.len() as int) =~= cs@);
        let ghost e2 = edits(fixes@);
        let src_b = source.as_bytes();
        let mut j: usize = 0;
        while j < cs.len()
            invariant
                j <= cs@.len(),
                src_b@ == src,
                edits(fixes@) == e2 + join_edits(src, cs@.take(j as int)),
            decreases cs@.len() - j,
        {
            assert(cs@.take(j + 1).drop_last() =~= cs@.take(j as int));
            assert(cs@.take(j + 1).last() == cs@[j as int]);
            if is_other_exec(&cs[j], "WhenNode") {
                let conds = when_conditions_exec(&cs[j]);
                if conds.len() > 1 {
                    let rep = joined_exec(src_b, conds);
                    let ghost before = edits(fixes@);
                    fixes.push(Correction { start: conds[0].loc().start, end: conds[conds.len() - 1].loc().end, replacement: rep });
                    assert(edits(fixes@) =~= before + seq![edits(fixes@).last()]);
                }
            }
            assert(edits(fixes@) =~= e2 + join_edits(src, cs@.take(j + 1)));
            j = j + 1;
        }
        assert(cs@.take(cs@.len() as int) =~= cs@);
        assert(edits(fixes@) =~= e + own_edits(src, *n, unsupported));
    }

    fn visit(&self, source: &SourceFile, n: &Node, unsupported: bool, out: &mut Vec<Diagnostic>, fixes: &mut Vec<Correction>)
        requires
            starts_fit(*n),
        ensures
            ({
                let r = tree_result(source.text(), *n, unsupported);
                offenses(final(out)@) == offenses(old(out)@) + r.0 && edits(final(fixes)@) == edits(old(fixes)@) + r.1
            }),
        decreases n, children(*n).len() + 1,
    {
        let ghost o = offenses(out@);
        let ghost e = edits(fixes@);
        let ghost src = source.text();
        self.check_case(source, n, unsupported, out, fixes);
        let ghost o1 = offenses(out@);
        let ghost e1 = edits(fixes@);
        let inner = match n {
            Node::Call { .. } => true,
            Node::Def { .. } => false,
            Node::Block { .. } => false,
            Node::If { .. } => false,
            Node::Unless { .. } => false,
            Node::For { .. } => false,
            _ => if is_other_exec(n, "ReturnNode") || is_other_exec(n, "BreakNode") || is_other_exec(n, "NextNode") {
                true
            } else if is_other_exec(n, "CaseNode") || is_other_exec(n, "LambdaNode") || is_other_exec(n, "WhileNode")
                || is_other_exec(n, "UntilNode") || is_other_exec(n, "BeginNode") || is_other_exec(n, "ClassNode")
                || is_other_exec(n, "ModuleNode") || is_other_exec(n, "SingletonClassNode") {
                false
            } else {
                unsupported
            },
        };
        assert(inner == child_state(*n, unsupported));
        let kids = children_of(n);
        let ghost cs = kids@.map_values(|x: &Node| *x);
        let mut i: usize = 0;
        while i < kids.len()
            invariant
                i <= kids@.len(),
                cs == kids@.map_values(|x: &Node| *x),
                cs == children(*n),
                src == source.text(),
                children_fit(*n, cs.len() as int),
                ({
                    let c = children_result(src, *n, i as int, inner);
                    offenses(out@) == o1 + c.0 && edits(fixes@) == e1 + c.1
                }),
            decreases kids@.len() - i,
        {
            proof {
                lemma_children_decrease(*n);
            }
            assert(cs[i as int] == *kids[i as int]);
            proof {
                lemma_children_fit(*n, cs.len() as int, i as int);
            }
            self.visit(source, kids[i], inner, out, fixes);
            i = i + 1;
        }
        assert(offenses(out@) =~= o + tree_result(src, *n, unsupported).0);
        assert(edits(fixes@) =~= e + tree_result(src, *n, unsupported).1);
    }

    /// The offenses and corrections in the tree rooted at `root`, in
    /// traversal order.  Every node starts at least four bytes before the
    /// largest offset (true of any tree parsed from a text in memory).
    pub fn check_source(&self, source: &SourceFile, root: &Node) -> (r: (Vec<Diagnostic>, Vec<Correction>))
        requires
            starts_fit(*root),
        ensures
            (offenses(r.0@), edits(r.1@)) == spec_check_source(source.text(), *root),
    {
        let mut out: Vec<Diagnostic> = Vec::new();
        let mut fixes: Vec<Correction> = Vec::new();
        assert(offenses(out@) =~= Seq::<Offense>::empty());
        assert(edits(fixes@) =~= Seq::<Edit>::empty());
        self.visit(source, root, false, &mut out, &mut fixes);
        (out, fixes)
    }
}

/// Every reported `case` is corrected: in any tree there are at least as
/// many edits as offenses.
pub proof fn law_every_offense_is_corrected(src: Seq<u8>, n: Node, unsupported: bool)
    ensures
        tree_result(src, n, unsupported).1.len() >= tree_result(src, n, unsupported).0.len(),
    decreases n, children(n).len() + 1,
{
    lemma_children_corrected(src, n, children(n).len() as int, child_state(n, unsupported));
}

proof fn lemma_children_corrected(src: Seq<u8>, n: Node, k: int, unsupported: bool)
    ensures
        children_result(src, n, k, unsupported).1.len() >= children_result(src, n, k, unsupported).0.len(),
    decreases n, k,
{
    if 0 < k <= children(n).len() {
        lemma_children_decrease(n);
        lemma_children_corrected(src, n, k - 1, unsupported);
        law_every_offense_is_corrected(src, children(n)[k - 1], unsupported);
    }
}

} // verus!
