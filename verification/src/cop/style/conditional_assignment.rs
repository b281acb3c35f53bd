//! Style/ConditionalAssignment: an `if`/`else` whose branches each assign
//! the same variable, where assigning the `if` itself says it once.
use vstd::prelude::*;
use vstd::string::StringSliceAdditionalSpecFns;
use crate::ast::{NamedKind, Node};
use crate::bytes::{bytes_eq, eq_str, src_range, src_range_exec, str_trim, text_or_empty, text_or_empty_exec, trim_text, utf8_is_valid};
use crate::diagnostic::{
    diagnostic, edits, offense, offenses, push_bytes, push_str, str_bytes, Correction, Diagnostic, Edit, Offense,
};
use crate::source::{clamp, line_start, spec_column_of, spec_line_of, Loc, SourceFile};

verus! {

/// The cop.
pub struct ConditionalAssignment;

/// The configured `EnforcedStyle`: only `assign_to_condition` is checked.
#[derive(Clone, Copy, PartialEq, Eq, Structural, Debug)]
pub enum ConditionalAssignmentStyle {
    AssignToCondition,
    /// `assign_inside_condition` or any other value: nothing is reported.
    Other,
}

/// The variable a local or instance variable assignment writes, as text
/// (empty when the name is not UTF-8).
pub open spec fn assignment_target(n: Node) -> Option<Seq<u8>> {
    match n {
        Node::Named { kind, name, .. } => if kind == NamedKind::LocalVariableWrite || kind
            == NamedKind::InstanceVariableWrite {
            Some(if vstd::utf8::valid_utf8(name@) { name@ } else { Seq::empty() })
        } else {
            None
        },
        _ => None,
    }
}

/// The single statement of a `Statements` node.
pub open spec fn single_statement(o: Option<Box<Node>>) -> Option<Node> {
    match o {
        Some(b) => match *b {
            Node::Statements { body, .. } => if body@.len() == 1 {
                Some(body@[0])
            } else {
                None
            },
            _ => None,
        },
        None => None,
    }
}

/// The two assignments of an `if`/`else` (not an `elsif`), one per branch.
pub open spec fn branch_assignments(src: Seq<u8>, n: Node) -> Option<(Node, Node)> {
    match n {
        Node::If { if_keyword_loc, statements, subsequent: Some(sub), .. } => {
            let is_elsif = match if_keyword_loc {
                Some(k) => src_range(src, k.start as int, k.end as int) == "elsif".spec_bytes(),
                None => false,
            };
            match *sub {
                Node::Else { statements: else_statements, .. } => if !is_elsif {
                    match (single_statement(statements), single_statement(else_statements)) {
                        (Some(a), Some(b)) => Some((a, b)),
                        _ => None,
                    }
                } else {
                    None
                },
                _ => None,
            }
        },
        _ => None,
    }
}

/// Both branches assign the same variable.
pub open spec fn is_reported(src: Seq<u8>, n: Node, style: ConditionalAssignmentStyle) -> bool {
    style == ConditionalAssignmentStyle::AssignToCondition && match branch_assignments(src, n) {
        Some((a, b)) => assignment_target(a) is Some && assignment_target(a) == assignment_target(b),
        None => false,
    }
}

/// The trimmed source of the assigned value.
pub open spec fn value_text(src: Seq<u8>, n: Node) -> Seq<u8> {
    match n {
        Node::Named { value: Some(v), .. } => str_trim(text_or_empty(src, v.spec_loc().start as int, v.spec_loc().end as int)),
        _ => Seq::empty(),
    }
}

/// The indentation before offset `p` on its line (UTF-8 text, else empty).
pub open spec fn indent_before(src: Seq<u8>, p: int) -> Seq<u8> {
    text_or_empty(src, line_start(src, clamp(src, p)), p)
}

/// The rewritten `if`: `x = if cond` with each branch's value.
pub open spec fn rewritten(src: Seq<u8>, kw: Loc, pred: Seq<u8>, a: Node, b: Node) -> Seq<u8> {
    let ind = indent_before(src, kw.start as int);
    ind + assignment_target(a)->0 + " = if ".spec_bytes() + pred + "\n".spec_bytes()
        + indent_before(src, a.spec_loc().start as int) + value_text(src, a) + "\n".spec_bytes() + ind
        + "else\n".spec_bytes() + indent_before(src, b.spec_loc().start as int) + value_text(src, b)
        + "\n".spec_bytes() + ind + "end".spec_bytes()
}

/// The correction of a reported `if`, when it is spelled `if`, its
/// condition is not blank, and both variable names and values are not empty.
pub open spec fn correction(src: Seq<u8>, n: Node) -> Seq<Edit> {
    match (n, branch_assignments(src, n)) {
        (Node::If { loc, if_keyword_loc: Some(kw), predicate, .. }, Some((a, b))) => {
            let pred = str_trim(text_or_empty(src, predicate.spec_loc().start as int, predicate.spec_loc().end as int));
            if src_range(src, kw.start as int, kw.end as int) == "if".spec_bytes() && pred.len() > 0
                && assignment_target(a)->0.len() > 0 && value_text(src, a).len() > 0 && value_text(src, b).len() > 0 {
                seq![Edit { start: loc.start as int, end: loc.end as int, replacement: rewritten(src, kw, pred, a, b) }]
            } else {
                Seq::empty()
            }
        },
        _ => Seq::empty(),
    }
}

pub open spec fn spec_check_node(src: Seq<u8>, n: Node, style: ConditionalAssignmentStyle) -> (Seq<Offense>, Seq<Edit>) {
    if is_reported(src, n, style) {
        (
            seq![offense(spec_line_of(src, n.spec_loc().start as int), spec_column_of(src, n.spec_loc().start as int),
                "Use the return value of `if` expression for variable assignment and comparison.".spec_bytes())],
            correction(src, n),
        )
    } else {
        (Seq::empty(), Seq::empty())
    }
}

fn single_statement_exec(o: &Option<Box<Node>>) -> (r: Option<&Node>)
    ensures
        match r {
            Some(x) => single_statement(*o) == Some(*x),
            None => single_statement(*o) is None,
        },
{
    match o {
        Some(b) => match &**b {
            Node::Statements { body, .. } => if body.len() == 1 {
                Some(&body[0])
            } else {
                None
            },
            _ => None,
        },
        None => None,
    }
}

fn branch_assignments_exec<'a>(src: &[u8], n: &'a Node) -> (r: Option<(&'a Node, &'a Node)>)
    ensures
        match r {
            Some((a, b)) => branch_assignments(src@, *n) == Some((*a, *b)),
            None => branch_assignments(src@, *n) is None,
        },
{
    match n {
        Node::If { if_keyword_loc, statements, subsequent: Some(sub), .. } => {
            let is_elsif = match if_keyword_loc {
                Some(k) => eq_str(src_range_exec(src, k.start, k.end), "elsif"),
                None => false,
            };
            match &**sub {
                Node::Else { statements: else_statements, .. } => if !is_elsif {
                    match (single_statement_exec(statements), single_statement_exec(else_statements)) {
                        (Some(a), Some(b)) => Some((a, b)),
                        _ => None,
                    }
                } else {
                    None
                },
                _ => None,
            }
        },
        _ => None,
    }
}

fn assignment_target_exec(n: &Node) -> (r: Option<&[u8]>)
    ensures
        match r {
            Some(t) => assignment_target(*n) == Some(t@),
            None => assignment_target(*n) is None,
        },
{
    match n {
        Node::Named { kind, name, .. } => {
            let w = match kind {
                NamedKind::LocalVariableWrite => true,
                NamedKind::InstanceVariableWrite => true,
                _ => false,
            };
            if w {
                if utf8_is_valid(name.as_slice()) {
                    Some(name.as_slice())
                } else {
                    let e: &[u8] = &[];
                    assert(e@ =~= Seq::<u8>::empty());
                    Some(e)
                }
            } else {
                None
            }
        },
        _ => None,
    }
}

fn value_text_exec(src: &[u8], n: &Node) -> (r: Vec<u8>)
    ensures
        r@ == value_text(src@, *n),
{
    match n {
        Node::Named { value: Some(v), .. } => {
            let l = v.loc();
            trim_text(text_or_empty_exec(src, l.start, l.end))
        },
        _ => Vec::new(),
    }
}

fn indent_before_exec(source: &SourceFile, p: usize) -> (r: &[u8])
    ensures
        r@ == indent_before(source.text(), p as int),
{
    let len = source.len();
    let q = if p > len { len } else { p };
    let s = source.line_start_from(q);
    text_or_empty_exec(source.as_bytes(), s, p)
}

impl ConditionalAssignment {
    pub fn name(&self) -> &'static str {
        "Style/ConditionalAssignment"
    }

    /// The offense at `node` and its correction.
    pub fn check_node(&self, source: &SourceFile, node: &Node, style: ConditionalAssignmentStyle) -> (r: (Vec<Diagnostic>, Vec<Correction>))
        ensures
            (offenses(r.0@), edits(r.1@)) == spec_check_node(source.text(), *node, style),
    {
        let mut out: Vec<Diagnostic> = Vec::new();
        let mut fixes: Vec<Correction> = Vec::new();
        let ghost spec = spec_check_node(source.text(), *node, style);
        let src = source.as_bytes();
        if style != ConditionalAssignmentStyle::AssignToCondition {
            assert(offenses(out@) =~= spec.0 && edits(fixes@) =~= spec.1);
            return (out, fixes);
        }
        let (a, b) = match branch_assignments_exec(src, node) {
            Some(p) => p,
            None => {
                assert(offenses(out@) =~= spec.0 && edits(fixes@) =~= spec.1);
                return (out, fixes);
            },
        };
        let target = match (assignment_target_exec(a), assignment_target_exec(b)) {
            (Some(x), Some(y)) => if bytes_eq(x, y) {
                x
            } else {
                assert(offenses(out@) =~= spec.0 && edits(fixes@) =~= spec.1);
                return (out, fixes);
            },
            _ => {
                assert(offenses(out@) =~= spec.0 && edits(fixes@) =~= spec.1);
                return (out, fixes);
            },
        };
        let l = node.loc();
        let (line, column) = source.position(l.start);
        out.push(diagnostic(line, column, str_bytes("Use the return value of `if` expression for variable assignment and comparison.")));
        assert(offenses(out@) =~= spec.0);
        match node {
            Node::If { if_keyword_loc: Some(kw), predicate, .. } => {
                let pl = predicate.loc();
                let pred = trim_text(text_or_empty_exec(src, pl.start, pl.end));
                let va = value_text_exec(src, a);
                let vb = value_text_exec(src, b);
                if eq_str(src_range_exec(src, kw.start, kw.end), "if") && pred.len() > 0 && target.len() > 0
                    && va.len() > 0 && vb.len() > 0 {
                    let ind = indent_before_exec(source, kw.start);
                    let mut m: Vec<u8> = Vec::new();
                    push_bytes(&mut m, ind);
                    push_bytes(&mut m, target);
                    push_str(&mut m, " = if ");
                    push_bytes(&mut m, pred.as_slice());
                    push_str(&mut m, "\n");
                    push_bytes(&mut m, indent_before_exec(source, a.loc().start));
                    push_bytes(&mut m, va.as_slice());
                    push_str(&mut m, "\n");
                    push_bytes(&mut m, ind);
                    push_str(&mut m, "else\n");
                    push_bytes(&mut m, indent_before_exec(source, b.loc().start));
                    push_bytes(&mut m, vb.as_slice());
                    push_str(&mut m, "\n");
                    push_bytes(&mut m, ind);
                    push_str(&mut m, "end");
                    fixes.push(Correction { start: l.start, end: l.end, replacement: m });
                }
            },
            _ => {},
        }
        assert(edits(fixes@) =~= spec.1);
        (out, fixes)
    }
}

} // verus!
