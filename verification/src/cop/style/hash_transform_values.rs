//! Style/HashTransformValues: building a hash with the same keys and
//! transformed values, which `transform_values` says directly.
//!
//! Four shapes are reported: `x.each_with_object({}) { |(k, v), h| h[k] =
//! f(v) }`, `Hash[x.map { |k, v| [k, f(v)] }]`, `x.map { |k, v| [k, f(v)]
//! }.to_h` and `x.to_h { |k, v| [k, f(v)] }`, where `f(v)` mentions `v` but
//! neither `k` nor `h`, and is not `v` itself.  Receivers that are array
//! literals or `each_with_index`/`with_index`/`zip` calls are not reported.
use vstd::prelude::*;
use vstd::string::StringSliceAdditionalSpecFns;
use crate::ast::{call_args_exec, children, is_other, is_other_exec, NamedKind, Node};
use crate::bytes::{bytes_eq, eq_str, src_range, src_range_exec};
use crate::diagnostic::{diagnostic, offense, offenses, str_bytes, Diagnostic, Offense};
use crate::source::{spec_column_of, spec_line_of, SourceFile};

verus! {

/// The cop.
pub struct HashTransformValues;

/// A byte of an identifier: an ASCII letter or digit, or `_`.
pub open spec fn spec_is_ident_char(b: u8) -> bool {
    (48 <= b <= 57) || (65 <= b <= 90) || (97 <= b <= 122) || b == 95u8
}

pub fn is_ident_char(b: u8) -> (r: bool)
    ensures
        r == spec_is_ident_char(b),
{
    (48 <= b && b <= 57) || (65 <= b && b <= 90) || (97 <= b && b <= 122) || b == 95u8
}

/// `needle` occurs at `i` in `hay` as a whole identifier.
pub open spec fn ident_at(hay: Seq<u8>, needle: Seq<u8>, i: int) -> bool {
    &&& 0 <= i && i + needle.len() <= hay.len()
    &&& hay.subrange(i, i + needle.len()) == needle
    &&& (i == 0 || !spec_is_ident_char(hay[i - 1]))
    &&& (i + needle.len() >= hay.len() || !spec_is_ident_char(hay[i + needle.len()]))
}

/// `hay` mentions the (non-empty) identifier `needle`.
pub open spec fn spec_contains_identifier(hay: Seq<u8>, needle: Seq<u8>) -> bool {
    needle.len() > 0 && exists|i: int| #[trigger] ident_at(hay, needle, i)
}

pub fn contains_identifier(hay: &[u8], needle: &[u8]) -> (r: bool)
    ensures
        r == spec_contains_identifier(hay@, needle@),
{
    if needle.len() == 0 || hay.len() < needle.len() {
        return false;
    }
    let last = hay.len() - needle.len();
    let mut i: usize = 0;
    while i <= last
        invariant
            last == hay@.len() - needle@.len(),
            last + needle@.len() == hay@.len(),
            hay@.len() <= usize::MAX,
            needle@.len() > 0,
            i <= last + 1,
            forall|j: int| 0 <= j < i ==> !#[trigger] ident_at(hay@, needle@, j),
        decreases last + 1 - i,
    {
        let n = needle.len();
        if bytes_eq(crate::bytes::subslice(hay, i, i + n), needle) {
            let before_ok = i == 0 || !is_ident_char(hay[i - 1]);
            let after_ok = i + n >= hay.len() || !is_ident_char(hay[i + n]);
            if before_ok && after_ok {
                assert(ident_at(hay@, needle@, i as int));
                return true;
            }
        }
        i = i + 1;
    }
    assert forall|j: int| !#[trigger] ident_at(hay@, needle@, j) by {
        if 0 <= j && j + needle@.len() <= hay@.len() {
            assert(j < i);
        }
    }
    false
}

/// A receiver that yields arrays rather than pairs: an array literal or a
/// call of `each_with_index`, `with_index` or `zip`.
pub open spec fn is_array_receiver(n: Node) -> bool {
    match n {
        Node::Call { receiver: Some(r), .. } => *r is Array || (*r matches Node::Call { name, .. } && (name@
            == "each_with_index".spec_bytes() || name@ == "with_index".spec_bytes() || name@ == "zip".spec_bytes())),
        _ => false,
    }
}

/// `{}` (only spaces and braces in its source), or an empty keyword hash.
pub open spec fn is_empty_hash(src: Seq<u8>, n: Node) -> bool {
    match n {
        Node::Hash { loc, .. } => {
            let t = src_range(src, loc.start as int, loc.end as int);
            forall|i: int| 0 <= i < t.len() ==> (#[trigger] t[i] == 32u8 || t[i] == 123u8 || t[i] == 125u8)
        },
        Node::KeywordHash { elements, .. } => elements@.len() == 0,
        _ => false,
    }
}

/// The required parameters of a block.
pub open spec fn block_requireds(b: Node) -> Option<Seq<Node>> {
    match b {
        Node::Block { parameters: Some(p), .. } => match *p {
            Node::BlockParameters { parameters: Some(pp), .. } => match *pp {
                Node::Parameters { requireds, .. } => Some(requireds@),
                _ => None,
            },
            _ => None,
        },
        _ => None,
    }
}

/// The single statement of a block's body.
pub open spec fn block_statement(b: Node) -> Option<Node> {
    match b {
        Node::Block { body: Some(body), .. } => match *body {
            Node::Statements { body: stmts, .. } => if stmts@.len() == 1 { Some(stmts@[0]) } else { None },
            _ => None,
        },
        _ => None,
    }
}

pub open spec fn param_name(n: Node) -> Option<Seq<u8>> {
    match n {
        Node::Named { kind: NamedKind::RequiredParameter, name, .. } => Some(name@),
        _ => None,
    }
}

pub open spec fn is_read_of(n: Node, name: Seq<u8>) -> bool {
    n matches Node::Named { kind: NamedKind::LocalVariableRead, name: nm, .. } && nm@ == name
}

/// The rest target of a destructuring: `*x` or a trailing comma.
pub open spec fn is_rest_target(n: Node) -> bool {
    is_other(n, "SplatNode".spec_bytes()) || is_other(n, "ImplicitRestNode".spec_bytes())
}

/// The names `k`, `v` of a destructured `(k, v)` parameter: its targets
/// before any rest target are exactly two plain names.
pub open spec fn pair_target(n: Node) -> Option<(Seq<u8>, Seq<u8>)> {
    let cs = children(n);
    if is_other(n, "MultiTargetNode".spec_bytes()) && cs.len() >= 2 && (cs.len() == 2 || is_rest_target(cs[2])) {
        match (param_name(cs[0]), param_name(cs[1])) {
            (Some(k), Some(v)) => Some((k, v)),
            _ => None,
        }
    } else {
        None
    }
}

/// The value expression transforms `v` alone: it is not `v` itself, it
/// mentions `v`, and it does not mention `k`.
pub open spec fn transforms_value(src: Seq<u8>, e: Node, v: Seq<u8>, k: Seq<u8>) -> bool {
    let t = src_range(src, e.spec_loc().start as int, e.spec_loc().end as int);
    !is_read_of(e, v) && spec_contains_identifier(t, v) && !spec_contains_identifier(t, k)
}

/// A `{ |k, v| [k, f(v)] }` block.
pub open spec fn is_map_block(src: Seq<u8>, b: Node) -> bool {
    match (block_requireds(b), block_statement(b)) {
        (Some(reqs), Some(Node::Array { elements, .. })) => reqs.len() == 2 && match (param_name(reqs[0]), param_name(reqs[1])) {
            (Some(k), Some(v)) => elements@.len() == 2 && is_read_of(elements@[0], k) && transforms_value(src, elements@[1], v, k),
            _ => false,
        },
        _ => false,
    }
}

/// An `each_with_object({}) { |(k, v), h| h[k] = f(v) }` call.
pub open spec fn is_each_with_object(src: Seq<u8>, n: Node) -> bool {
    match n {
        Node::Call { block: Some(b), .. } => {
            let args = n.call_args();
            *b is Block && !is_array_receiver(n) && args.len() == 1 && is_empty_hash(src, args[0])
                && match (block_requireds(*b), block_statement(*b)) {
                (Some(reqs), Some(stmt)) => reqs.len() == 2 && match (pair_target(reqs[0]), param_name(reqs[1]), stmt) {
                    (Some((k, v)), Some(h), Node::Call { name: setter, receiver: Some(r), .. }) => {
                        let aa = stmt.call_args();
                        &&& setter@ == "[]=".spec_bytes()
                        &&& is_read_of(*r, h)
                        &&& aa.len() == 2
                        &&& is_read_of(aa[0], k)
                        &&& transforms_value(src, aa[1], v, k)
                        &&& !spec_contains_identifier(src_range(src, aa[1].spec_loc().start as int, aa[1].spec_loc().end as int), h)
                    },
                    _ => false,
                },
                _ => false,
            }
        },
        _ => false,
    }
}

/// A `map`/`collect` call with a `{ |k, v| [k, f(v)] }` block, on a
/// receiver that yields pairs.
pub open spec fn is_map_call(src: Seq<u8>, n: Node) -> bool {
    n matches Node::Call { name, block: Some(b), .. } && (name@ == "map".spec_bytes() || name@ == "collect".spec_bytes())
        && *b is Block && !is_array_receiver(n) && is_map_block(src, *b)
}

/// The message and offset of the offense at call `n`, if any.
pub open spec fn verdict(src: Seq<u8>, n: Node) -> Option<(Seq<u8>, int)> {
    match n {
        Node::Call { name, receiver, arguments, block, loc, .. } => if name@ == "each_with_object".spec_bytes() {
            if is_each_with_object(src, n) {
                Some(("Prefer `transform_values` over `each_with_object`.".spec_bytes(), loc.start as int))
            } else {
                None
            }
        } else if name@ == "[]".spec_bytes() {
            match receiver {
                Some(r) => if (*r matches Node::Named { kind: NamedKind::ConstantRead, .. } || *r is ConstantPath)
                    && src_range(src, r.spec_loc().start as int, r.spec_loc().end as int) == "Hash".spec_bytes()
                    && n.call_args().len() == 1 && is_map_call(src, n.call_args()[0]) {
                    Some(("Prefer `transform_values` over `Hash[_.map {...}]`.".spec_bytes(), loc.start as int))
                } else {
                    None
                },
                None => None,
            }
        } else if name@ == "to_h".spec_bytes() {
            match (receiver, block) {
                (Some(r), None) => if is_map_call(src, *r) && arguments is None {
                    Some(("Prefer `transform_values` over `map {...}.to_h`.".spec_bytes(), r.spec_loc().start as int))
                } else {
                    None
                },
                (_, Some(b)) => if *b is Block && !is_array_receiver(n) && arguments is None && is_map_block(src, *b) {
                    Some(("Prefer `transform_values` over `to_h {...}`.".spec_bytes(), loc.start as int))
                } else {
                    None
                },
                _ => None,
            }
        } else {
            None
        },
        _ => None,
    }
}

pub open spec fn spec_check_node(src: Seq<u8>, n: Node) -> Seq<Offense> {
    match verdict(src, n) {
        Some((m, at)) => seq![offense(spec_line_of(src, at), spec_column_of(src, at), m)],
        None => Seq::empty(),
    }
}

fn is_array_receiver_exec(n: &Node) -> (r: bool)
    ensures
        r == is_array_receiver(*n),
{
    match n {
        Node::Call { receiver: Some(r), .. } => match &**r {
            Node::Array { .. } => true,
            Node::Call { name, .. } => eq_str(name.as_slice(), "each_with_index") || eq_str(name.as_slice(), "with_index")
                || eq_str(name.as_slice(), "zip"),
            _ => false,
        },
        _ => false,
    }
}

fn is_empty_hash_exec(src: &[u8], n: &Node) -> (r: bool)
    ensures
        r == is_empty_hash(src@, *n),
{
    match n {
        Node::Hash { loc, .. } => {
            let t = src_range_exec(src, loc.start, loc.end);
            let mut i: usize = 0;
            while i < t.len()
                invariant
                    i <= t@.len(),
                    *n matches Node::Hash { loc: l, .. } && t@ == src_range(src@, l.start as int, l.end as int),
                    forall|j: int| 0 <= j < i ==> (#[trigger] t@[j] == 32u8 || t@[j] == 123u8 || t@[j] == 125u8),
                decreases t@.len() - i,
            {
                let b = t[i];
                if !(b == 32u8 || b == 123u8 || b == 125u8) {
                    assert(!(t@[i as int] == 32u8 || t@[i as int] == 123u8 || t@[i as int] == 125u8));
                    return false;
                }
                i = i + 1;
            }
            true
        },
        Node::KeywordHash { elements, .. } => elements.len() == 0,
        _ => false,
    }
}

fn block_requireds_exec(b: &Node) -> (r: Option<&Vec<Node>>)
    ensures
        match r {
            Some(v) => block_requireds(*b) == Some(v@),
            None => block_requireds(*b) is None,
        },
{
    match b {
        Node::Block { parameters: Some(p), .. } => match &**p {
            Node::BlockParameters { parameters: Some(pp), .. } => match &**pp {
                Node::Parameters { requireds, .. } => Some(requireds),
                _ => None,
            },
            _ => None,
        },
        _ => None,
    }
}

fn block_statement_exec(b: &Node) -> (r: Option<&Node>)
    ensures
        match r {
            Some(s) => block_statement(*b) == Some(*s),
            None => block_statement(*b) is None,
        },
{
    match b {
        Node::Block { body: Some(body), .. } => match &**body {
            Node::Statements { body: stmts, .. } => if stmts.len() == 1 { Some(&stmts[0]) } else { None },
            _ => None,
        },
        _ => None,
    }
}

fn param_name_exec(n: &Node) -> (r: Option<&[u8]>)
    ensures
        match r {
            Some(s) => param_name(*n) == Some(s@),
            None => param_name(*n) is None,
        },
{
    match n {
        Node::Named { kind: NamedKind::RequiredParameter, name, .. } => Some(name.as_slice()),
        _ => None,
    }
}

fn is_read_of_exec(n: &Node, name: &[u8]) -> (r: bool)
    ensures
        r == is_read_of(*n, name@),
{
    match n {
        Node::Named { kind: NamedKind::LocalVariableRead, name: nm, .. } => bytes_eq(nm.as_slice(), name),
        _ => false,
    }
}

fn pair_target_exec(n: &Node) -> (r: Option<(&[u8], &[u8])>)
    ensures
        match r {
            Some((k, v)) => pair_target(*n) == Some((k@, v@)),
            None => pair_target(*n) is None,
        },
{
    match n {
        Node::Other { children: cs, .. } => {
            assert(children(*n) == cs@);
            if !is_other_exec(n, "MultiTargetNode") || cs.len() < 2 {
                return None;
            }
            if cs.len() > 2 && !(is_other_exec(&cs[2], "SplatNode") || is_other_exec(&cs[2], "ImplicitRestNode")) {
                return None;
            }
            match (param_name_exec(&cs[0]), param_name_exec(&cs[1])) {
                (Some(k), Some(v)) => Some((k, v)),
                _ => None,
            }
        },
        _ => None,
    }
}

fn transforms_value_exec(src: &[u8], e: &Node, v: &[u8], k: &[u8]) -> (r: bool)
    ensures
        r == transforms_value(src@, *e, v@, k@),
{
    let l = e.loc();
    let t = src_range_exec(src, l.start, l.end);
    !is_read_of_exec(e, v) && contains_identifier(t, v) && !contains_identifier(t, k)
}

fn is_map_block_exec(src: &[u8], b: &Node) -> (r: bool)
    ensures
        r == is_map_block(src@, *b),
{
    match (block_requireds_exec(b), block_statement_exec(b)) {
        (Some(reqs), Some(Node::Array { elements, .. })) => {
            if reqs.len() != 2 {
                return false;
            }
            match (param_name_exec(&reqs[0]), param_name_exec(&reqs[1])) {
                (Some(k), Some(v)) => elements.len() == 2 && is_read_of_exec(&elements[0], k)
                    && transforms_value_exec(src, &elements[1], v, k),
                _ => false,
            }
        },
        _ => false,
    }
}

fn is_each_with_object_exec(src: &[u8], n: &Node) -> (r: bool)
    ensures
        r == is_each_with_object(src@, *n),
{
    let b = match n {
        Node::Call { block: Some(b), .. } => b,
        _ => {
            return false;
        },
    };
    match &**b {
        Node::Block { .. } => {},
        _ => {
            return false;
        },
    }
    let args = call_args_exec(n);
    if is_array_receiver_exec(n) || args.len() != 1 || !is_empty_hash_exec(src, &args[0]) {
        return false;
    }
    let (reqs, stmt) = match (block_requireds_exec(b), block_statement_exec(b)) {
        (Some(reqs), Some(stmt)) => (reqs, stmt),
        _ => {
            return false;
        },
    };
    if reqs.len() != 2 {
        return false;
    }
    match (pair_target_exec(&reqs[0]), param_name_exec(&reqs[1]), stmt) {
        (Some((k, v)), Some(h), Node::Call { name: setter, receiver: Some(r), .. }) => {
            let aa = call_args_exec(stmt);
            if !eq_str(setter.as_slice(), "[]=") || !is_read_of_exec(r, h) || aa.len() != 2 {
                return false;
            }
            let l = aa[1].loc();
            is_read_of_exec(&aa[0], k) && transforms_value_exec(src, &aa[1], v, k)
                && !contains_identifier(src_range_exec(src, l.start, l.end), h)
        },
        _ => false,
    }
}

fn is_map_call_exec(src: &[u8], n: &Node) -> (r: bool)
    ensures
        r == is_map_call(src@, *n),
{
    match n {
        Node::Call { name, block: Some(b), .. } => (eq_str(name.as_slice(), "map") || eq_str(name.as_slice(), "collect"))
            && match &**b {
            Node::Block { .. } => true,
            _ => false,
        } && !is_array_receiver_exec(n) && is_map_block_exec(src, b),
        _ => false,
    }
}

impl HashTransformValues {
    pub fn name(&self) -> &'static str {
        "Style/HashTransformValues"
    }

    /// The offense at the call `node`.
    pub fn check_node(&self, source: &SourceFile, node: &Node) -> (r: Vec<Diagnostic>)
        ensures
            offenses(r@) == spec_check_node(source.text(), *node),
    {
        let mut out: Vec<Diagnostic> = Vec::new();
        let src = source.as_bytes();
        let hit: Option<(Vec<u8>, usize)> = match node {
            Node::Call { name, receiver, arguments, block, loc, .. } => if eq_str(name.as_slice(), "each_with_object") {
                if is_each_with_object_exec(src, node) {
                    Some((str_bytes("Prefer `transform_values` over `each_with_object`."), loc.start))
                } else {
                    None
                }
            } else if eq_str(name.as_slice(), "[]") {
                match receiver {
                    Some(r) => {
                        let kind = match &**r {
                            Node::Named { kind: NamedKind::ConstantRead, .. } => true,
                            Node::ConstantPath { .. } => true,
                            _ => false,
                        };
                        let rl = r.loc();
                        let args = call_args_exec(node);
                        if kind && eq_str(src_range_exec(src, rl.start, rl.end), "Hash") && args.len() == 1
                            && is_map_call_exec(src, &args[0]) {
                            Some((str_bytes("Prefer `transform_values` over `Hash[_.map {...}]`."), loc.start))
                        } else {
                            None
                        }
                    },
                    None => None,
                }
            } else if eq_str(name.as_slice(), "to_h") {
                match (receiver, block) {
                    (Some(r), None) => if is_map_call_exec(src, r) && arguments.is_none() {
                        Some((str_bytes("Prefer `transform_values` over `map {...}.to_h`."), r.loc().start))
                    } else {
                        None
                    },
                    (_, Some(b)) => {
                        let is_block = match &**b {
                            Node::Block { .. } => true,
                            _ => false,
                        };
                        if is_block && !is_array_receiver_exec(node) && arguments.is_none() && is_map_block_exec(src, b) {
                            Some((str_bytes("Prefer `transform_values` over `to_h {...}`."), loc.start))
                        } else {
                            None
                        }
                    },
                    _ => None,
                }
            } else {
                None
            },
            _ => None,
        };
        match hit {
            Some((m, at)) => {
                let (line, column) = source.position(at);
                out.push(diagnostic(line, column, m));
            },
            None => {},
        }
        assert(offenses(out@) =~= spec_check_node(source.text(), *node));
        out
    }
}

/// `recv.map { |k, v| [k, f(v)] }.to_h` (or with `collect`), on a receiver
/// that is neither an array literal nor an `each_with_index`, `with_index`
/// or `zip` call, is reported once, at the start of the `map` call.
pub proof fn law_map_to_h_is_reported(src: Seq<u8>, t: Node, m: Node)
    requires
        t is Call,
        t->Call_name@ == "to_h".spec_bytes(),
        holds(t->Call_receiver, m),
        t->Call_block is None,
        t->Call_arguments is None,
        m is Call,
        m->Call_name@ == "map".spec_bytes() || m->Call_name@ == "collect".spec_bytes(),
        m->Call_block matches Some(b) && *b is Block && is_map_block(src, *b),
        m->Call_receiver matches Some(r) ==> !(*r is Array) && !(*r matches Node::Call { name, .. } && (name@
            == "each_with_index".spec_bytes() || name@ == "with_index".spec_bytes() || name@ == "zip".spec_bytes())),
    ensures
        spec_check_node(src, t) == seq![offense(
            spec_line_of(src, m.spec_loc().start as int),
            spec_column_of(src, m.spec_loc().start as int),
            "Prefer `transform_values` over `map {...}.to_h`.".spec_bytes(),
        )],
{
    broadcast use vstd::string::group_string_axioms;
    reveal_strlit("to_h");
    reveal_strlit("each_with_object");
    reveal_strlit("[]");
    assert(vstd::string::is_ascii("to_h") && vstd::string::is_ascii("each_with_object") && vstd::string::is_ascii("[]"));
    assert("to_h".spec_bytes().len() == 4 && "each_with_object".spec_bytes().len() == 16 && "[]".spec_bytes().len() == 2);
    assert(is_map_call(src, m));
}

/// `a` and `b` are the same call except for the method name.
pub open spec fn same_call_but_name(a: Node, b: Node) -> bool {
    match (a, b) {
        (
            Node::Call { loc: l1, receiver: r1, call_operator_loc: o1, message_loc: m1, opening_loc: p1, arguments: a1, closing_loc: c1, block: b1, .. },
            Node::Call { loc: l2, receiver: r2, call_operator_loc: o2, message_loc: m2, opening_loc: p2, arguments: a2, closing_loc: c2, block: b2, .. },
        ) => l1 == l2 && r1 == r2 && o1 == o2 && m1 == m2 && p1 == p2 && a1 == a2 && c1 == c2 && b1 == b2,
        _ => false,
    }
}

/// Whether `o` holds `x`.
pub open spec fn holds(o: Option<Box<Node>>, x: Node) -> bool {
    match o {
        Some(b) => *b == x,
        None => false,
    }
}

/// `a` and `b` are the same call except that where `a` has `x`, as its
/// receiver or as its one argument, `b` has `y`.
pub open spec fn same_call_but_operand(a: Node, b: Node, x: Node, y: Node) -> bool {
    match (a, b) {
        (
            Node::Call { loc: l1, receiver: r1, call_operator_loc: o1, name: n1, message_loc: m1, opening_loc: p1, arguments: a1, closing_loc: c1, block: b1 },
            Node::Call { loc: l2, receiver: r2, call_operator_loc: o2, name: n2, message_loc: m2, opening_loc: p2, arguments: a2, closing_loc: c2, block: b2 },
        ) => {
            &&& l1 == l2 && o1 == o2 && n1@ == n2@ && m1 == m2 && p1 == p2 && c1 == c2 && b1 == b2
            &&& ((holds(r1, x) && holds(r2, y) && a1 == a2)
                || (r1 == r2 && a1 is Some && a2 is Some && a.call_args() == seq![x] && b.call_args() == seq![y]))
        },
        _ => false,
    }
}

/// `collect` is `map`: a `collect` call and the same call written with `map`
/// are judged alike, on their own and wherever they stand as the receiver or
/// the one argument of another call (`_.collect {...}.to_h`,
/// `Hash[_.collect {...}]`).
pub proof fn law_collect_is_map(src: Seq<u8>, c: Node, m: Node, a: Node, b: Node)
    requires
        c matches Node::Call { name, .. } && name@ == "collect".spec_bytes(),
        m matches Node::Call { name, .. } && name@ == "map".spec_bytes(),
        same_call_but_name(c, m),
        same_call_but_operand(a, b, c, m),
    ensures
        spec_check_node(src, c) == spec_check_node(src, m),
        spec_check_node(src, a) == spec_check_node(src, b),
{
    broadcast use vstd::string::group_string_axioms;
    reveal_strlit("collect");
    reveal_strlit("map");
    reveal_strlit("each_with_index");
    reveal_strlit("with_index");
    reveal_strlit("zip");
    reveal_strlit("each_with_object");
    reveal_strlit("[]");
    reveal_strlit("to_h");
    assert(vstd::string::is_ascii("collect") && vstd::string::is_ascii("map") && vstd::string::is_ascii("each_with_index")
        && vstd::string::is_ascii("with_index") && vstd::string::is_ascii("zip") && vstd::string::is_ascii("each_with_object")
        && vstd::string::is_ascii("[]") && vstd::string::is_ascii("to_h"));
    assert("collect".spec_bytes().len() == 7 && "map".spec_bytes().len() == 3 && "each_with_index".spec_bytes().len() == 15
        && "with_index".spec_bytes().len() == 10 && "zip".spec_bytes().len() == 3 && "each_with_object".spec_bytes().len() == 16
        && "[]".spec_bytes().len() == 2 && "to_h".spec_bytes().len() == 4);
    assert("map".spec_bytes() =~= seq![109u8, 97u8, 112u8]);
    assert("zip".spec_bytes() =~= seq![122u8, 105u8, 112u8]);
    assert(is_array_receiver(c) == is_array_receiver(m));
    assert(is_map_call(src, c) == is_map_call(src, m));
    assert(is_empty_hash(src, c) == is_empty_hash(src, m));
    assert(is_array_receiver(a) == is_array_receiver(b));
    assert(is_each_with_object(src, a) == is_each_with_object(src, b));
    assert(verdict(src, c) == verdict(src, m));
    assert(verdict(src, a) == verdict(src, b));
}

} // verus!
