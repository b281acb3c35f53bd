//! Style/ComparableClamp: bounding a value with `min`/`max` pairs or with an
//! `if`/`elsif`/`else` chain, where `clamp` says it directly.
use vstd::prelude::*;
use vstd::string::StringSliceAdditionalSpecFns;
use crate::ast::{call_args_exec, Node};
use crate::bytes::{bytes_eq, eq_str, lossy_utf8, src_range, src_range_exec, utf8_lossy};
use crate::diagnostic::{
    diagnostic, edits, offense, offenses, push_bytes, push_str, str_bytes, Correction, Diagnostic,
    Edit, Offense,
};
use crate::source::{spec_column_of, spec_line_of, SourceFile};

verus! {

/// The cop.
pub struct ComparableClamp;

pub open spec fn clamp_msg() -> Seq<u8> {
    "Use `clamp` instead of `if/elsif/else`.".spec_bytes()
}

/// Which bound a branch supplies.
#[derive(Clone, Copy, PartialEq, Eq, Structural, Debug)]
pub enum ClampKind {
    Min,
    Max,
}

/// The text of a node, decoded lossily.
pub open spec fn node_src(src: Seq<u8>, n: Node) -> Seq<u8> {
    utf8_lossy(src_range(src, n.spec_loc().start as int, n.spec_loc().end as int))
}

/// What one `cond then body` branch says: the compared value, the kind of
/// bound, and the bound (the body, which is one side of the comparison).
pub open spec fn spec_extract_condition_part(left: Seq<u8>, op: u8, right: Seq<u8>, body: Seq<u8>) -> Option<(Seq<u8>, ClampKind, Seq<u8>)> {
    if body == left {
        Some((right, if op == 62u8 { ClampKind::Min } else { ClampKind::Max }, body))
    } else if body == right {
        Some((left, if op == 60u8 { ClampKind::Min } else { ClampKind::Max }, body))
    } else {
        None
    }
}

/// The value, lower and upper bound of an `if`/`elsif`/`else` clamp, when
/// the branches bound the same value from both sides and the `else` gives
/// the value itself.
pub open spec fn spec_clamp_parts(
    f_left: Seq<u8>,
    f_op: u8,
    f_right: Seq<u8>,
    if_body: Seq<u8>,
    s_left: Seq<u8>,
    s_op: u8,
    s_right: Seq<u8>,
    elsif_body: Seq<u8>,
    else_body: Seq<u8>,
) -> Option<(Seq<u8>, Seq<u8>, Seq<u8>)> {
    match (
        spec_extract_condition_part(f_left, f_op, f_right, if_body),
        spec_extract_condition_part(s_left, s_op, s_right, elsif_body),
    ) {
        (Some((x1, k1, b1)), Some((x2, k2, b2))) => if x1 != x2 || else_body != x1 || k1 == k2
            || b1 == b2 {
            None
        } else if k1 == ClampKind::Min {
            Some((x1, b1, b2))
        } else {
            Some((x1, b2, b1))
        },
        _ => None,
    }
}

/// `[a, b]`: the elements of a two-element array literal.
pub open spec fn pair_of(n: Node) -> Option<(Node, Node)> {
    match n {
        Node::Array { elements, .. } => if elements@.len() == 2 {
            Some((elements@[0], elements@[1]))
        } else {
            None
        },
        _ => None,
    }
}

/// `[[x, low].max, high].min` or `[[x, high].min, low].max`: the value and
/// the bounds.
pub open spec fn array_clamp(src: Seq<u8>, c: Node) -> Option<(Seq<u8>, Seq<u8>, Seq<u8>)> {
    match c {
        Node::Call { name, arguments: None, receiver: Some(r), .. } => {
            let outer_min = name@ == "min".spec_bytes();
            if !outer_min && name@ != "max".spec_bytes() {
                None
            } else {
                match pair_of(*r) {
                    Some((e0, e1)) => {
                        let (inner, bound) = if e0 is Call {
                            (e0, e1)
                        } else {
                            (e1, e0)
                        };
                        match inner {
                            Node::Call { name: iname, arguments: None, receiver: Some(ir), .. } => {
                                let valid = (outer_min && iname@ == "max".spec_bytes()) || (!outer_min
                                    && iname@ == "min".spec_bytes());
                                if !valid {
                                    None
                                } else {
                                    match pair_of(*ir) {
                                        Some((x, ib)) => {
                                            let xs = node_src(src, x);
                                            let is = node_src(src, ib);
                                            let os = node_src(src, bound);
                                            if outer_min {
                                                Some((xs, is, os))
                                            } else {
                                                Some((xs, os, is))
                                            }
                                        },
                                        None => None,
                                    }
                                }
                            },
                            _ => None,
                        }
                    },
                    None => None,
                }
            }
        },
        _ => None,
    }
}

/// The source of the only statement of a branch.
pub open spec fn single_stmt_src(src: Seq<u8>, stmts: Option<Box<Node>>) -> Option<Seq<u8>> {
    match stmts {
        Some(s) => match *s {
            Node::Statements { body, .. } => if body@.len() == 1 {
                Some(node_src(src, body@[0]))
            } else {
                None
            },
            _ => None,
        },
        None => None,
    }
}

/// `a < b` or `a > b`: both sides' text and the operator.
pub open spec fn comparison(src: Seq<u8>, n: Node) -> Option<(Seq<u8>, u8, Seq<u8>)> {
    match n {
        Node::Call { name, receiver: Some(r), arguments: Some(_), .. } => if (name@
            == "<".spec_bytes() || name@ == ">".spec_bytes()) && n.call_args().len() == 1 {
            Some(
                (
                    node_src(src, *r),
                    if name@ == "<".spec_bytes() { 60u8 } else { 62u8 },
                    node_src(src, n.call_args()[0]),
                ),
            )
        } else {
            None
        },
        _ => None,
    }
}

/// The clamp that an `if x < low then low elsif x > high then high else x
/// end` chain (in any of its orders) amounts to.
pub open spec fn if_clamp(src: Seq<u8>, n: Node) -> Option<(Seq<u8>, Seq<u8>, Seq<u8>)> {
    match n {
        Node::If { if_keyword_loc: Some(kw), predicate, statements, subsequent: Some(sub), .. } => {
            if src_range(src, kw.start as int, kw.end as int) != "if".spec_bytes() {
                None
            } else {
                match *sub {
                    Node::If { predicate: p2, statements: st2, subsequent: Some(ec), .. } => match *ec {
                        Node::Else { statements: st3, .. } => match (
                            single_stmt_src(src, st3),
                            single_stmt_src(src, statements),
                            single_stmt_src(src, st2),
                            comparison(src, *predicate),
                            comparison(src, *p2),
                        ) {
                            (Some(eb), Some(ib), Some(sb), Some((fl, fo, fr)), Some((sl, so, sr))) =>
                                spec_clamp_parts(fl, fo, fr, ib, sl, so, sr, sb, eb),
                            _ => None,
                        },
                        _ => None,
                    },
                    _ => None,
                }
            }
        },
        _ => None,
    }
}

pub open spec fn clamp_text(x: Seq<u8>, min: Seq<u8>, max: Seq<u8>) -> Seq<u8> {
    x + ".clamp(".spec_bytes() + min + ", ".spec_bytes() + max + ")".spec_bytes()
}

/// The offense and correction at `n`.
pub open spec fn spec_check_node(src: Seq<u8>, n: Node) -> (Seq<Offense>, Seq<Edit>) {
    let found = if n is Call {
        array_clamp(src, n)
    } else {
        if_clamp(src, n)
    };
    match found {
        Some((x, min, max)) => (
            seq![
                offense(
                    spec_line_of(src, n.spec_loc().start as int),
                    spec_column_of(src, n.spec_loc().start as int),
                    clamp_msg(),
                ),
            ],
            seq![
                Edit {
                    start: n.spec_loc().start as int,
                    end: n.spec_loc().end as int,
                    replacement: clamp_text(x, min, max),
                },
            ],
        ),
        None => (Seq::empty(), Seq::empty()),
    }
}

/// What one branch says: the compared value, the kind of bound and the
/// bound, when the body is one side of the comparison.
pub fn extract_condition_part<'a>(left: &'a [u8], op: u8, right: &'a [u8], body: &'a [u8]) -> (r: Option<(&'a [u8], ClampKind, &'a [u8])>)
    ensures
        match r {
            Some((x, k, b)) => spec_extract_condition_part(left@, op, right@, body@) == Some(
                (x@, k, b@),
            ),
            None => spec_extract_condition_part(left@, op, right@, body@) is None,
        },
{
    if bytes_eq(body, left) {
        let kind = if op == 62u8 {
            ClampKind::Min
        } else {
            ClampKind::Max
        };
        return Some((right, kind, body));
    }
    if bytes_eq(body, right) {
        let kind = if op == 60u8 {
            ClampKind::Min
        } else {
            ClampKind::Max
        };
        return Some((left, kind, body));
    }
    None
}

/// The value and the bounds of an `if`/`elsif`/`else` clamp.
pub fn clamp_parts<'a>(
    f_left: &'a [u8],
    f_op: u8,
    f_right: &'a [u8],
    if_body: &'a [u8],
    s_left: &'a [u8],
    s_op: u8,
    s_right: &'a [u8],
    elsif_body: &'a [u8],
    else_body: &'a [u8],
) -> (r: Option<(&'a [u8], &'a [u8], &'a [u8])>)
    ensures
        match r {
            Some((x, lo, hi)) => spec_clamp_parts(
                f_left@,
                f_op,
                f_right@,
                if_body@,
                s_left@,
                s_op,
                s_right@,
                elsif_body@,
                else_body@,
            ) == Some((x@, lo@, hi@)),
            None => spec_clamp_parts(
                f_left@,
                f_op,
                f_right@,
                if_body@,
                s_left@,
                s_op,
                s_right@,
                elsif_body@,
                else_body@,
            ) is None,
        },
{
    let (x1, k1, b1) = match extract_condition_part(f_left, f_op, f_right, if_body) {
        Some(t) => t,
        None => {
            return None;
        },
    };
    let (x2, k2, b2) = match extract_condition_part(s_left, s_op, s_right, elsif_body) {
        Some(t) => t,
        None => {
            return None;
        },
    };
    if !bytes_eq(x1, x2) || !bytes_eq(else_body, x1) || k1 == k2 || bytes_eq(b1, b2) {
        return None;
    }
    if k1 == ClampKind::Min {
        Some((x1, b1, b2))
    } else {
        Some((x1, b2, b1))
    }
}

fn node_src_exec(src: &[u8], n: &Node) -> (r: Vec<u8>)
    ensures
        r@ == node_src(src@, *n),
{
    let l = n.loc();
    lossy_utf8(src_range_exec(src, l.start, l.end))
}

fn pair_of_exec(n: &Node) -> (r: Option<(&Node, &Node)>)
    ensures
        match r {
            Some((a, b)) => pair_of(*n) == Some((*a, *b)),
            None => pair_of(*n) is None,
        },
{
    match n {
        Node::Array { elements, .. } => {
            if elements.len() == 2 {
                Some((&elements[0], &elements[1]))
            } else {
                None
            }
        },
        _ => None,
    }
}

fn array_clamp_exec(src: &[u8], c: &Node) -> (r: Option<(Vec<u8>, Vec<u8>, Vec<u8>)>)
    ensures
        match r {
            Some((x, lo, hi)) => array_clamp(src@, *c) == Some((x@, lo@, hi@)),
            None => array_clamp(src@, *c) is None,
        },
{
    let (name, r) = match c {
        Node::Call { name, arguments: None, receiver: Some(r), .. } => (name, r),
        _ => {
            return None;
        },
    };
    let outer_min = eq_str(name.as_slice(), "min");
    if !outer_min && !eq_str(name.as_slice(), "max") {
        return None;
    }
    let (e0, e1) = match pair_of_exec(r) {
        Some(p) => p,
        None => {
            return None;
        },
    };
    let (inner, bound) = match e0 {
        Node::Call { .. } => (e0, e1),
        _ => (e1, e0),
    };
    let (iname, ir) = match inner {
        Node::Call { name: iname, arguments: None, receiver: Some(ir), .. } => (iname, ir),
        _ => {
            return None;
        },
    };
    let valid = (outer_min && eq_str(iname.as_slice(), "max")) || (!outer_min && eq_str(
        iname.as_slice(),
        "min",
    ));
    if !valid {
        return None;
    }
    let (x, ib) = match pair_of_exec(ir) {
        Some(p) => p,
        None => {
            return None;
        },
    };
    let xs = node_src_exec(src, x);
    let is = node_src_exec(src, ib);
    let os = node_src_exec(src, bound);
    if outer_min {
        Some((xs, is, os))
    } else {
        Some((xs, os, is))
    }
}

fn single_stmt_src_exec(src: &[u8], stmts: &Option<Box<Node>>) -> (r: Option<Vec<u8>>)
    ensures
        match r {
            Some(v) => single_stmt_src(src@, *stmts) == Some(v@),
            None => single_stmt_src(src@, *stmts) is None,
        },
{
    match stmts {
        Some(s) => match &**s {
            Node::Statements { body, .. } => {
                if body.len() == 1 {
                    Some(node_src_exec(src, &body[0]))
                } else {
                    None
                }
            },
            _ => None,
        },
        None => None,
    }
}

fn comparison_exec(src: &[u8], n: &Node) -> (r: Option<(Vec<u8>, u8, Vec<u8>)>)
    ensures
        match r {
            Some((l, op, rt)) => comparison(src@, *n) == Some((l@, op, rt@)),
            None => comparison(src@, *n) is None,
        },
{
    match n {
        Node::Call { name, receiver: Some(r), arguments: Some(_), .. } => {
            let lt = eq_str(name.as_slice(), "<");
            if !lt && !eq_str(name.as_slice(), ">") {
                return None;
            }
            let args = call_args_exec(n);
            if args.len() != 1 {
                return None;
            }
            let op: u8 = if lt {
                60
            } else {
                62
            };
            Some((node_src_exec(src, r), op, node_src_exec(src, &args[0])))
        },
        _ => None,
    }
}

fn if_clamp_exec(src: &[u8], n: &Node) -> (r: Option<(Vec<u8>, Vec<u8>, Vec<u8>)>)
    ensures
        match r {
            Some((x, lo, hi)) => if_clamp(src@, *n) == Some((x@, lo@, hi@)),
            None => if_clamp(src@, *n) is None,
        },
{
    let (kw, predicate, statements, sub) = match n {
        Node::If { if_keyword_loc: Some(kw), predicate, statements, subsequent: Some(sub), .. } => (
            kw,
            predicate,
            statements,
            sub,
        ),
        _ => {
            return None;
        },
    };
    if !eq_str(src_range_exec(src, kw.start, kw.end), "if") {
        return None;
    }
    let (p2, st2, ec) = match &**sub {
        Node::If { predicate: p2, statements: st2, subsequent: Some(ec), .. } => (p2, st2, ec),
        _ => {
            return None;
        },
    };
    let st3 = match &**ec {
        Node::Else { statements: st3, .. } => st3,
        _ => {
            return None;
        },
    };
    let eb = match single_stmt_src_exec(src, st3) {
        Some(v) => v,
        None => {
            return None;
        },
    };
    let ib = match single_stmt_src_exec(src, statements) {
        Some(v) => v,
        None => {
            return None;
        },
    };
    let sb = match single_stmt_src_exec(src, st2) {
        Some(v) => v,
        None => {
            return None;
        },
    };
    let (fl, fo, fr) = match comparison_exec(src, predicate) {
        Some(t) => t,
        None => {
            return None;
        },
    };
    let (sl, so, sr) = match comparison_exec(src, p2) {
        Some(t) => t,
        None => {
            return None;
        },
    };
    match clamp_parts(
        fl.as_slice(),
        fo,
        fr.as_slice(),
        ib.as_slice(),
        sl.as_slice(),
        so,
        sr.as_slice(),
        sb.as_slice(),
        eb.as_slice(),
    ) {
        Some((x, lo, hi)) => {
            let mut a: Vec<u8> = Vec::new();
            push_bytes(&mut a, x);
            let mut b: Vec<u8> = Vec::new();
            push_bytes(&mut b, lo);
            let mut c: Vec<u8> = Vec::new();
            push_bytes(&mut c, hi);
            assert(a@ =~= x@ && b@ =~= lo@ && c@ =~= hi@);
            Some((a, b, c))
        },
        None => None,
    }
}

impl ComparableClamp {
    pub fn name(&self) -> &'static str {
        "Style/ComparableClamp"
    }

    /// The offense and correction at `node`.
    pub fn check_node(&self, source: &SourceFile, node: &Node) -> (r: (Vec<Diagnostic>, Vec<Correction>))
        ensures
            (offenses(r.0@), edits(r.1@)) == spec_check_node(source.text(), *node),
    {
        let text = source.as_bytes();
        let found = match node {
            Node::Call { .. } => array_clamp_exec(text, node),
            _ => if_clamp_exec(text, node),
        };
        let mut out: Vec<Diagnostic> = Vec::new();
        let mut fixes: Vec<Correction> = Vec::new();
        match found {
            Some((x, lo, hi)) => {
                let l = node.loc();
                let (line, column) = source.position(l.start);
                out.push(diagnostic(line, column, str_bytes("Use `clamp` instead of `if/elsif/else`.")));
                let mut t: Vec<u8> = Vec::new();
                push_bytes(&mut t, x.as_slice());
                push_str(&mut t, ".clamp(");
                push_bytes(&mut t, lo.as_slice());
                push_str(&mut t, ", ");
                push_bytes(&mut t, hi.as_slice());
                push_str(&mut t, ")");
                fixes.push(Correction { start: l.start, end: l.end, replacement: t });
            },
            None => {},
        }
        assert(offenses(out@) =~= spec_check_node(source.text(), *node).0);
        assert(edits(fixes@) =~= spec_check_node(source.text(), *node).1);
        (out, fixes)
    }
}

/// The order of the two bounding branches does not matter: swapping the
/// `if` and `elsif` branches yields the same value and bounds.
pub proof fn law_branch_order_irrelevant(
    f_left: Seq<u8>,
    f_op: u8,
    f_right: Seq<u8>,
    if_body: Seq<u8>,
    s_left: Seq<u8>,
    s_op: u8,
    s_right: Seq<u8>,
    elsif_body: Seq<u8>,
    else_body: Seq<u8>,
)
    ensures
        spec_clamp_parts(f_left, f_op, f_right, if_body, s_left, s_op, s_right, elsif_body, else_body)
            == spec_clamp_parts(s_left, s_op, s_right, elsif_body, f_left, f_op, f_right, if_body, else_body),
{
}

/// Writing a comparison the other way round (`a < b` as `b > a`) does not
/// change what a branch says.
pub proof fn law_comparison_sides_irrelevant(left: Seq<u8>, op: u8, right: Seq<u8>, body: Seq<u8>)
    requires
        op == 60u8 || op == 62u8,
        left != right,
    ensures
        spec_extract_condition_part(left, op, right, body) == spec_extract_condition_part(
            right,
            if op == 60u8 { 62u8 } else { 60u8 },
            left,
            body,
        ),
{
}

} // verus!
