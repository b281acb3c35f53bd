//! Style/InverseMethods: negating a method that has an inverse (`!x.any?`
//! for `x.none?`), or a block method whose block negates its result
//! (`select { !f }` for `reject { f }`).
//!
//! The inverse pairs come from the `InverseMethods` and `InverseBlocks`
//! options (leading `:` removed), or from their defaults.  A pair list
//! stands for a map: where a key occurs twice, the later pair counts.
use vstd::prelude::*;
use vstd::string::StringSliceAdditionalSpecFns;
use crate::ast::{call_args_exec, children, is_other, is_other_exec, pruned, walk_pruned, NamedKind, Node, PruneRule};
use crate::bytes::{bytes_eq, eq_str, skip_leading, skip_leading_exec, text_or_empty, text_or_empty_exec, utf8_is_valid};
use crate::diagnostic::{
    diagnostic, edits, offense, offenses, push_bytes, push_str, str_bytes, Correction, Diagnostic, Edit, Offense,
};
use crate::source::{spec_column_of, spec_line_of, SourceFile};

verus! {

broadcast use vstd::string::group_string_axioms;

/// The cop.
pub struct InverseMethods;

/// A pair list as values.
pub open spec fn pairs_view(v: Seq<(Vec<u8>, Vec<u8>)>) -> Seq<(Seq<u8>, Seq<u8>)> {
    v.map_values(|p: (Vec<u8>, Vec<u8>)| (p.0@, p.1@))
}

/// The configured pairs with the leading `:` of each name removed.
pub open spec fn trimmed_pairs(c: Seq<(Seq<u8>, Seq<u8>)>) -> Seq<(Seq<u8>, Seq<u8>)> {
    c.map_values(|p: (Seq<u8>, Seq<u8>)| (skip_leading(p.0, 58u8), skip_leading(p.1, 58u8)))
}

pub open spec fn default_inverse_methods() -> Seq<(Seq<u8>, Seq<u8>)> {
    seq![
        ("any?".spec_bytes(), "none?".spec_bytes()),
        ("none?".spec_bytes(), "any?".spec_bytes()),
        ("even?".spec_bytes(), "odd?".spec_bytes()),
        ("odd?".spec_bytes(), "even?".spec_bytes()),
        ("==".spec_bytes(), "!=".spec_bytes()),
        ("!=".spec_bytes(), "==".spec_bytes()),
        ("=~".spec_bytes(), "!~".spec_bytes()),
        ("!~".spec_bytes(), "=~".spec_bytes()),
        ("<".spec_bytes(), ">=".spec_bytes()),
        (">=".spec_bytes(), "<".spec_bytes()),
        (">".spec_bytes(), "<=".spec_bytes()),
        ("<=".spec_bytes(), ">".spec_bytes()),
    ]
}

pub open spec fn default_inverse_blocks() -> Seq<(Seq<u8>, Seq<u8>)> {
    seq![("select".spec_bytes(), "reject".spec_bytes()), ("reject".spec_bytes(), "select".spec_bytes())]
}

/// The inverse methods: the configured ones, or the defaults.
pub open spec fn spec_inverse_map(configured: Option<Seq<(Seq<u8>, Seq<u8>)>>) -> Seq<(Seq<u8>, Seq<u8>)> {
    match configured {
        Some(c) => trimmed_pairs(c),
        None => default_inverse_methods(),
    }
}

/// The inverse block methods: the configured ones, or the defaults.
pub open spec fn spec_inverse_blocks(configured: Option<Seq<(Seq<u8>, Seq<u8>)>>) -> Seq<(Seq<u8>, Seq<u8>)> {
    match configured {
        Some(c) => trimmed_pairs(c),
        None => default_inverse_blocks(),
    }
}

/// The pairs, followed by their `!` variants.
pub open spec fn with_bang(m: Seq<(Seq<u8>, Seq<u8>)>) -> Seq<(Seq<u8>, Seq<u8>)> {
    m + m.map_values(|p: (Seq<u8>, Seq<u8>)| (p.0.push(33u8), p.1.push(33u8)))
}

/// The value of the last pair with key `k`.
pub open spec fn lookup(m: Seq<(Seq<u8>, Seq<u8>)>, k: Seq<u8>) -> Option<Seq<u8>>
    decreases m.len(),
{
    if m.len() == 0 {
        None
    } else if m.last().0 == k {
        Some(m.last().1)
    } else {
        lookup(m.drop_last(), k)
    }
}

pub open spec fn opt_view(c: Option<&Vec<(Vec<u8>, Vec<u8>)>>) -> Option<Seq<(Seq<u8>, Seq<u8>)>> {
    match c {
        Some(v) => Some(pairs_view(v@)),
        None => None,
    }
}

fn trimmed_exec(c: &Vec<(Vec<u8>, Vec<u8>)>) -> (r: Vec<(Vec<u8>, Vec<u8>)>)
    ensures
        pairs_view(r@) == trimmed_pairs(pairs_view(c@)),
{
    let mut r: Vec<(Vec<u8>, Vec<u8>)> = Vec::new();
    let mut i: usize = 0;
    while i < c.len()
        invariant
            i <= c@.len(),
            pairs_view(r@) == trimmed_pairs(pairs_view(c@)).take(i as int),
        decreases c@.len() - i,
    {
        let k = crate::diagnostic::slice_to_vec(skip_leading_exec(c[i].0.as_slice(), 58u8));
        let v = crate::diagnostic::slice_to_vec(skip_leading_exec(c[i].1.as_slice(), 58u8));
        let ghost old_r = r@;
        let ghost kv = (k@, v@);
        r.push((k, v));
        assert(pairs_view(r@) =~= pairs_view(old_r).push(kv));
        assert(trimmed_pairs(pairs_view(c@)).take(i + 1) =~= trimmed_pairs(pairs_view(c@)).take(i as int).push(kv));
        assert(pairs_view(r@) =~= trimmed_pairs(pairs_view(c@)).take(i + 1));
        i = i + 1;
    }
    assert(trimmed_pairs(pairs_view(c@)).take(c@.len() as int) =~= trimmed_pairs(pairs_view(c@)));
    r
}

fn pairs_from(d: &[(&str, &str)]) -> (r: Vec<(Vec<u8>, Vec<u8>)>)
    ensures
        pairs_view(r@) == d@.map_values(|p: (&str, &str)| (p.0.spec_bytes(), p.1.spec_bytes())),
{
    let mut r: Vec<(Vec<u8>, Vec<u8>)> = Vec::new();
    let mut i: usize = 0;
    while i < d.len()
        invariant
            i <= d@.len(),
            pairs_view(r@) == d@.map_values(|p: (&str, &str)| (p.0.spec_bytes(), p.1.spec_bytes())).take(i as int),
        decreases d@.len() - i,
    {
        let (a, b) = d[i];
        let ka = str_bytes(a);
        let vb = str_bytes(b);
        let ghost old_r = r@;
        let ghost kv = (ka@, vb@);
        r.push((ka, vb));
        assert(pairs_view(r@) =~= pairs_view(old_r).push(kv));
        assert(pairs_view(r@) =~= d@.map_values(|p: (&str, &str)| (p.0.spec_bytes(), p.1.spec_bytes())).take(i + 1));
        i = i + 1;
    }
    assert(d@.map_values(|p: (&str, &str)| (p.0.spec_bytes(), p.1.spec_bytes())).take(d@.len() as int)
        =~= d@.map_values(|p: (&str, &str)| (p.0.spec_bytes(), p.1.spec_bytes())));
    r
}

/// The inverse methods map from the `InverseMethods` option (or the
/// defaults when it is not set).
pub fn build_inverse_map(configured: Option<&Vec<(Vec<u8>, Vec<u8>)>>) -> (r: Vec<(Vec<u8>, Vec<u8>)>)
    ensures
        pairs_view(r@) == spec_inverse_map(opt_view(configured)),
{
    match configured {
        Some(c) => trimmed_exec(c),
        None => {
            let d: [(&str, &str); 12] = [
                ("any?", "none?"),
                ("none?", "any?"),
                ("even?", "odd?"),
                ("odd?", "even?"),
                ("==", "!="),
                ("!=", "=="),
                ("=~", "!~"),
                ("!~", "=~"),
                ("<", ">="),
                (">=", "<"),
                (">", "<="),
                ("<=", ">"),
            ];
            let r = pairs_from(&d);
            proof {
                reveal_strlit("any?");
            }
            assert(pairs_view(r@) =~= default_inverse_methods());
            r
        },
    }
}

/// The inverse block methods map from the `InverseBlocks` option (or the
/// defaults when it is not set).
pub fn build_inverse_blocks(configured: Option<&Vec<(Vec<u8>, Vec<u8>)>>) -> (r: Vec<(Vec<u8>, Vec<u8>)>)
    ensures
        pairs_view(r@) == spec_inverse_blocks(opt_view(configured)),
{
    match configured {
        Some(c) => trimmed_exec(c),
        None => {
            let d: [(&str, &str); 2] = [("select", "reject"), ("reject", "select")];
            let r = pairs_from(&d);
            assert(pairs_view(r@) =~= default_inverse_blocks());
            r
        },
    }
}

/// The inverse block methods with their `!` variants.
pub fn build_inverse_blocks_with_bang(configured: Option<&Vec<(Vec<u8>, Vec<u8>)>>) -> (r: Vec<(Vec<u8>, Vec<u8>)>)
    ensures
        pairs_view(r@) == with_bang(spec_inverse_blocks(opt_view(configured))),
{
    let base = build_inverse_blocks(configured);
    let ghost b = pairs_view(base@);
    let mut r: Vec<(Vec<u8>, Vec<u8>)> = Vec::new();
    let mut i: usize = 0;
    while i < base.len()
        invariant
            i <= base@.len(),
            b == pairs_view(base@),
            pairs_view(r@) == b.take(i as int),
        decreases base@.len() - i,
    {
        let k = crate::diagnostic::slice_to_vec(base[i].0.as_slice());
        let v = crate::diagnostic::slice_to_vec(base[i].1.as_slice());
        let ghost old_r = r@;
        let ghost kv = (k@, v@);
        r.push((k, v));
        assert(pairs_view(r@) =~= pairs_view(old_r).push(kv));
        assert(b.take(i + 1) =~= b.take(i as int).push(kv));
        assert(pairs_view(r@) =~= b.take(i + 1));
        i = i + 1;
    }
    assert(b.take(base@.len() as int) =~= b);
    let ghost bang = b.map_values(|p: (Seq<u8>, Seq<u8>)| (p.0.push(33u8), p.1.push(33u8)));
    let mut j: usize = 0;
    while j < base.len()
        invariant
            j <= base@.len(),
            b == pairs_view(base@),
            bang == b.map_values(|p: (Seq<u8>, Seq<u8>)| (p.0.push(33u8), p.1.push(33u8))),
            pairs_view(r@) == b + bang.take(j as int),
        decreases base@.len() - j,
    {
        let mut k = crate::diagnostic::slice_to_vec(base[j].0.as_slice());
        k.push(33u8);
        let mut v = crate::diagnostic::slice_to_vec(base[j].1.as_slice());
        v.push(33u8);
        let ghost old_r = r@;
        let ghost kv = (k@, v@);
        r.push((k, v));
        assert(pairs_view(r@) =~= pairs_view(old_r).push(kv));
        assert(bang.take(j + 1) =~= bang.take(j as int).push(kv));
        assert(pairs_view(r@) =~= b + bang.take(j + 1));
        j = j + 1;
    }
    assert(bang.take(base@.len() as int) =~= bang);
    r
}

fn lookup_exec<'a>(m: &'a Vec<(Vec<u8>, Vec<u8>)>, k: &[u8]) -> (r: Option<&'a Vec<u8>>)
    ensures
        match r {
            Some(v) => lookup(pairs_view(m@), k@) == Some(v@),
            None => lookup(pairs_view(m@), k@) is None,
        },
{
    let ghost w = pairs_view(m@);
    let mut found: Option<&Vec<u8>> = None;
    let mut i: usize = 0;
    while i < m.len()
        invariant
            i <= m@.len(),
            w == pairs_view(m@),
            match found {
                Some(v) => lookup(w.take(i as int), k@) == Some(v@),
                None => lookup(w.take(i as int), k@) is None,
            },
        decreases m@.len() - i,
    {
        assert(w.take(i + 1).drop_last() =~= w.take(i as int));
        assert(w.take(i + 1).last() == (m@[i as int].0@, m@[i as int].1@));
        if bytes_eq(m[i].0.as_slice(), k) {
            found = Some(&m[i].1);
        }
        i = i + 1;
    }
    assert(w.take(m@.len() as int) =~= w);
    found
}

/// Where the scan back from `pos` over spaces and tabs stops.
pub open spec fn back_over_blanks(src: Seq<u8>, pos: int) -> int
    decreases pos,
{
    if pos > 0 && (src[pos] == 32u8 || src[pos] == 9u8) {
        back_over_blanks(src, pos - 1)
    } else {
        pos
    }
}

/// The inner `!` of `!!x`: a `!` preceded (across spaces and tabs) by
/// another `!`.
pub open spec fn is_double_negation(src: Seq<u8>, n: Node) -> bool {
    match n {
        Node::Call { message_loc: Some(m), .. } => m.start > 0 && src[back_over_blanks(src, m.start - 1)] == 33u8,
        _ => false,
    }
}

/// The call negated by `!`: the receiver, or the one call in parentheses.
pub open spec fn inner_call(n: Node) -> Option<Node> {
    match n {
        Node::Call { receiver: Some(r), .. } => match *r {
            Node::Call { .. } => Some(*r),
            _ => if is_other(*r, "ParenthesesNode".spec_bytes()) && children(*r).len() > 0 {
                match children(*r)[0] {
                    Node::Statements { body, .. } => if body@.len() == 1 && body@[0] is Call {
                        Some(body@[0])
                    } else {
                        None
                    },
                    _ => None,
                }
            } else {
                None
            },
        },
        _ => None,
    }
}

/// `&.` with a method whose inverse `nil` lacks.
pub open spec fn is_safe_navigation_incompatible(src: Seq<u8>, c: Node) -> bool {
    match c {
        Node::Call { call_operator_loc: Some(op), name, .. } => text_or_empty(src, op.start as int, op.end as int) == "&.".spec_bytes()
            && (name@ == "any?".spec_bytes() || name@ == "none?".spec_bytes() || name@ == "<".spec_bytes()
            || name@ == ">".spec_bytes() || name@ == "<=".spec_bytes() || name@ == ">=".spec_bytes()),
        _ => false,
    }
}

pub open spec fn spec_is_comparison_operator(m: Seq<u8>) -> bool {
    m == "<".spec_bytes() || m == ">".spec_bytes() || m == "<=".spec_bytes() || m == ">=".spec_bytes()
}

/// Whether the method is one of `<`, `>`, `<=`, `>=`.
pub fn is_comparison_operator(method: &[u8]) -> (r: bool)
    ensures
        r == spec_is_comparison_operator(method@),
{
    eq_str(method, "<") || eq_str(method, ">") || eq_str(method, "<=") || eq_str(method, ">=")
}

pub open spec fn is_constant(n: Node) -> bool {
    n matches Node::Named { kind: NamedKind::ConstantRead, .. } || n is ConstantPath
}

/// A receiver or argument of `c` is a constant.
pub open spec fn has_constant_operand(c: Node) -> bool {
    (c matches Node::Call { receiver: Some(r), .. } && is_constant(*r))
        || exists|i: int| 0 <= i < c.call_args().len() && is_constant(#[trigger] c.call_args()[i])
}

/// The call's source with its method name replaced.
pub open spec fn replace_selector(src: Seq<u8>, c: Node, rep: Seq<u8>) -> Option<Seq<u8>> {
    match c {
        Node::Call { message_loc: Some(m), loc, .. } => Some(
            text_or_empty(src, loc.start as int, m.start as int) + rep + text_or_empty(src, m.end as int, loc.end as int),
        ),
        _ => None,
    }
}

pub open spec fn shown_name(m: Seq<u8>) -> Seq<u8> {
    if vstd::utf8::valid_utf8(m) { m } else { "method".spec_bytes() }
}

pub open spec fn inverse_message(inv: Seq<u8>, m: Seq<u8>) -> Seq<u8> {
    "Use `".spec_bytes() + inv + "` instead of inverting `".spec_bytes() + shown_name(m) + "`.".spec_bytes()
}

/// The offense (at the `!` call `n`) and correction for inverting `c`
/// with `inv`.
pub open spec fn negation_part(src: Seq<u8>, n: Node, c: Node, inv: Seq<u8>) -> (Seq<Offense>, Seq<Edit>) {
    let l = n.spec_loc();
    (
        seq![offense(spec_line_of(src, l.start as int), spec_column_of(src, l.start as int), inverse_message(inv, c->Call_name@))],
        match replace_selector(src, c, inv) {
            Some(r) => seq![Edit { start: l.start as int, end: l.end as int, replacement: r }],
            None => Seq::empty(),
        },
    )
}

/// The result for a `!` call.
pub open spec fn negation_result(
    src: Seq<u8>,
    n: Node,
    methods: Seq<(Seq<u8>, Seq<u8>)>,
    blocks: Seq<(Seq<u8>, Seq<u8>)>,
) -> (Seq<Offense>, Seq<Edit>) {
    if is_double_negation(src, n) {
        (Seq::empty(), Seq::empty())
    } else {
        match inner_call(n) {
            Some(c) => if is_safe_navigation_incompatible(src, c) {
                (Seq::empty(), Seq::empty())
            } else {
                let name = c->Call_name@;
                let block_part = if c->Call_block is Some && lookup(blocks, name) is Some {
                    negation_part(src, n, c, lookup(blocks, name)->0)
                } else {
                    (Seq::empty(), Seq::empty())
                };
                match lookup(methods, name) {
                    Some(inv) => if spec_is_comparison_operator(name) && has_constant_operand(c) {
                        (Seq::empty(), Seq::empty())
                    } else {
                        let p = negation_part(src, n, c, inv);
                        (p.0 + block_part.0, p.1 + block_part.1)
                    },
                    None => block_part,
                }
            },
            None => (Seq::empty(), Seq::empty()),
        }
    }
}

/// `!x` (with a receiver), `a != b` or `a !~ b`, or such a negation as the
/// last statement in parentheses.
pub open spec fn is_negated_expr(n: Node) -> bool
    decreases n,
{
    match n {
        Node::Call { name, receiver, .. } => (name@ == "!".spec_bytes() && receiver is Some) || name@ == "!=".spec_bytes()
            || name@ == "!~".spec_bytes(),
        Node::Other { node_type, children: cs, .. } => if node_type@ == "ParenthesesNode".spec_bytes() && cs@.len() > 0 {
            match cs@[0] {
                Node::Statements { body, .. } => if body@.len() > 0 {
                    is_negated_expr(body@.last())
                } else {
                    false
                },
                _ => false,
            }
        } else {
            false
        },
        _ => false,
    }
}

/// The expression that undoes the negation `n`.
pub open spec fn invert_negated_expr(src: Seq<u8>, n: Node, methods: Seq<(Seq<u8>, Seq<u8>)>) -> Option<Seq<u8>>
    decreases n,
{
    match n {
        Node::Call { name, receiver, .. } => if name@ == "!".spec_bytes() {
            match receiver {
                Some(r) => Some(text_or_empty(src, r.spec_loc().start as int, r.spec_loc().end as int)),
                None => None,
            }
        } else {
            match lookup(methods, name@) {
                Some(rep) => replace_selector(src, n, rep),
                None => None,
            }
        },
        Node::Other { node_type, children: cs, .. } => if node_type@ == "ParenthesesNode".spec_bytes() && cs@.len() > 0 {
            match cs@[0] {
                Node::Statements { body, .. } => if body@.len() > 0 {
                    invert_negated_expr(src, body@.last(), methods)
                } else {
                    None
                },
                _ => None,
            }
        } else {
            None
        },
        _ => None,
    }
}

/// The last statement of a block's body.
pub open spec fn last_statement(b: Node) -> Option<Node> {
    match b {
        Node::Block { body: Some(body), .. } => match *body {
            Node::Statements { body: stmts, .. } => if stmts@.len() > 0 { Some(stmts@.last()) } else { None },
            _ => None,
        },
        _ => None,
    }
}

/// The search for `next` does not enter blocks, lambdas or method
/// definitions.
#[derive(Clone, Copy)]
pub struct OwnScope;

impl PruneRule for OwnScope {
    open spec fn stops(self, n: Node) -> bool {
        n is Block || n is Def || is_other(n, "LambdaNode".spec_bytes())
    }

    fn stops_exec(&self, n: &Node) -> (r: bool) {
        match n {
            Node::Block { .. } => true,
            Node::Def { .. } => true,
            _ => is_other_exec(n, "LambdaNode"),
        }
    }
}

/// The block's body holds a `next` of its own.
pub open spec fn has_next(b: Node) -> bool {
    match b {
        Node::Block { body: Some(body), .. } => exists|i: int|
            0 <= i < pruned(*body, OwnScope).len() && is_other(#[trigger] pruned(*body, OwnScope)[i], "NextNode".spec_bytes()),
        _ => false,
    }
}

/// The result for a block method call whose block negates its last
/// expression.
pub open spec fn block_result(
    src: Seq<u8>,
    n: Node,
    methods: Seq<(Seq<u8>, Seq<u8>)>,
    blocks_bang: Seq<(Seq<u8>, Seq<u8>)>,
) -> (Seq<Offense>, Seq<Edit>) {
    match n {
        Node::Call { name, block: Some(b), message_loc, loc, .. } => match lookup(blocks_bang, name@) {
            Some(inv) => if *b is Block && last_statement(*b) is Some && is_negated_expr(last_statement(*b)->0) && !has_next(*b) {
                let last = last_statement(*b)->0;
                (
                    seq![offense(spec_line_of(src, loc.start as int), spec_column_of(src, loc.start as int), inverse_message(inv, name@))],
                    match (message_loc, invert_negated_expr(src, last, methods)) {
                        (Some(ml), Some(rep)) => seq![
                            Edit { start: ml.start as int, end: ml.end as int, replacement: inv },
                            Edit { start: last.spec_loc().start as int, end: last.spec_loc().end as int, replacement: rep },
                        ],
                        _ => Seq::empty(),
                    },
                )
            } else {
                (Seq::empty(), Seq::empty())
            },
            None => (Seq::empty(), Seq::empty()),
        },
        _ => (Seq::empty(), Seq::empty()),
    }
}

/// The configured inverse pairs.
pub struct InverseMethodsConfig {
    pub inverse_methods: Option<Vec<(Vec<u8>, Vec<u8>)>>,
    pub inverse_blocks: Option<Vec<(Vec<u8>, Vec<u8>)>>,
}

impl InverseMethodsConfig {
    pub open spec fn methods_view(&self) -> Option<Seq<(Seq<u8>, Seq<u8>)>> {
        match self.inverse_methods {
            Some(v) => Some(pairs_view(v@)),
            None => None,
        }
    }

    pub open spec fn blocks_view(&self) -> Option<Seq<(Seq<u8>, Seq<u8>)>> {
        match self.inverse_blocks {
            Some(v) => Some(pairs_view(v@)),
            None => None,
        }
    }
}

pub open spec fn spec_check_node(src: Seq<u8>, n: Node, cfg: InverseMethodsConfig) -> (Seq<Offense>, Seq<Edit>) {
    match n {
        Node::Call { name, .. } => if name@ == "!".spec_bytes() {
            negation_result(src, n, spec_inverse_map(cfg.methods_view()), spec_inverse_blocks(cfg.blocks_view()))
        } else {
            block_result(src, n, spec_inverse_map(cfg.methods_view()), with_bang(spec_inverse_blocks(cfg.blocks_view())))
        },
        _ => (Seq::empty(), Seq::empty()),
    }
}

/// Calls whose check is defined: the `!` operator lies inside the text.
pub open spec fn well_formed_negation(src: Seq<u8>, n: Node) -> bool {
    match n {
        Node::Call { name, message_loc: Some(m), .. } => name@ == "!".spec_bytes() ==> m.start <= src.len(),
        _ => true,
    }
}

fn is_double_negation_exec(src: &[u8], n: &Node) -> (r: bool)
    requires
        well_formed_negation(src@, *n),
        n matches Node::Call { name, .. } && name@ == "!".spec_bytes(),
    ensures
        r == is_double_negation(src@, *n),
{
    match n {
        Node::Call { message_loc: Some(m), .. } => {
            if m.start == 0 {
                return false;
            }
            let mut pos = m.start - 1;
            while pos > 0 && (src[pos] == 32u8 || src[pos] == 9u8)
                invariant
                    pos < src@.len(),
                    back_over_blanks(src@, pos as int) == back_over_blanks(src@, m.start - 1),
                decreases pos,
            {
                pos = pos - 1;
            }
            src[pos] == 33u8
        },
        _ => false,
    }
}

fn inner_call_exec(n: &Node) -> (r: Option<&Node>)
    ensures
        match r {
            Some(c) => inner_call(*n) == Some(*c),
            None => inner_call(*n) is None,
        },
{
    match n {
        Node::Call { receiver: Some(r), .. } => match &**r {
            Node::Call { .. } => Some(&**r),
            Node::Other { children: cs, .. } => {
                assert(children(**r) == cs@);
                if is_other_exec(r, "ParenthesesNode") && cs.len() > 0 {
                    match &cs[0] {
                        Node::Statements { body, .. } => if body.len() == 1 {
                            match &body[0] {
                                Node::Call { .. } => Some(&body[0]),
                                _ => None,
                            }
                        } else {
                            None
                        },
                        _ => None,
                    }
                } else {
                    None
                }
            },
            _ => None,
        },
        _ => None,
    }
}

fn replace_selector_exec(src: &[u8], c: &Node, rep: &[u8]) -> (r: Option<Vec<u8>>)
    ensures
        match r {
            Some(x) => replace_selector(src@, *c, rep@) == Some(x@),
            None => replace_selector(src@, *c, rep@) is None,
        },
{
    match c {
        Node::Call { message_loc: Some(m), loc, .. } => {
            let mut v: Vec<u8> = Vec::new();
            push_bytes(&mut v, text_or_empty_exec(src, loc.start, m.start));
            push_bytes(&mut v, rep);
            push_bytes(&mut v, text_or_empty_exec(src, m.end, loc.end));
            Some(v)
        },
        _ => None,
    }
}

fn inverse_message_exec(inv: &[u8], m: &[u8]) -> (r: Vec<u8>)
    ensures
        r@ == inverse_message(inv@, m@),
{
    let mut v: Vec<u8> = Vec::new();
    push_str(&mut v, "Use `");
    push_bytes(&mut v, inv);
    push_str(&mut v, "` instead of inverting `");
    if utf8_is_valid(m) {
        push_bytes(&mut v, m);
    } else {
        push_str(&mut v, "method");
    }
    push_str(&mut v, "`.");
    v
}

fn is_constant_exec(n: &Node) -> (r: bool)
    ensures
        r == is_constant(*n),
{
    match n {
        Node::Named { kind: NamedKind::ConstantRead, .. } => true,
        Node::ConstantPath { .. } => true,
        _ => false,
    }
}

fn has_constant_operand_exec(c: &Node) -> (r: bool)
    ensures
        r == has_constant_operand(*c),
{
    match c {
        Node::Call { receiver: Some(r), .. } => if is_constant_exec(r) {
            return true;
        },
        _ => {},
    }
    let args = call_args_exec(c);
    let mut i: usize = 0;
    while i < args.len()
        invariant
            i <= args@.len(),
            args@ == c.call_args(),
            !(*c matches Node::Call { receiver: Some(r), .. } && is_constant(*r)),
            forall|j: int| 0 <= j < i ==> !is_constant(#[trigger] args@[j]),
        decreases args@.len() - i,
    {
        if is_constant_exec(&args[i]) {
            return true;
        }
        i = i + 1;
    }
    false
}

fn is_negated_expr_exec(n: &Node) -> (r: bool)
    ensures
        r == is_negated_expr(*n),
    decreases n,
{
    match n {
        Node::Call { name, receiver, .. } => (eq_str(name.as_slice(), "!") && receiver.is_some()) || eq_str(name.as_slice(), "!=")
            || eq_str(name.as_slice(), "!~"),
        Node::Other { node_type, children: cs, .. } => if eq_str(node_type.as_slice(), "ParenthesesNode") && cs.len() > 0 {
            match &cs[0] {
                Node::Statements { body, .. } => if body.len() > 0 {
                    proof {
                        crate::ast::lemma_children_decrease(*n);
                        crate::ast::lemma_children_decrease(cs@[0]);
                        assert(decreases_to!(cs@[0] => body@.last()));
                    }
                    is_negated_expr_exec(&body[body.len() - 1])
                } else {
                    false
                },
                _ => false,
            }
        } else {
            false
        },
        _ => false,
    }
}

fn invert_negated_expr_exec(src: &[u8], n: &Node, methods: &Vec<(Vec<u8>, Vec<u8>)>) -> (r: Option<Vec<u8>>)
    ensures
        match r {
            Some(x) => invert_negated_expr(src@, *n, pairs_view(methods@)) == Some(x@),
            None => invert_negated_expr(src@, *n, pairs_view(methods@)) is None,
        },
    decreases n,
{
    match n {
        Node::Call { name, receiver, .. } => if eq_str(name.as_slice(), "!") {
            match receiver {
                Some(r) => {
                    let l = r.loc();
                    Some(crate::diagnostic::slice_to_vec(text_or_empty_exec(src, l.start, l.end)))
                },
                None => None,
            }
        } else {
            match lookup_exec(methods, name.as_slice()) {
                Some(rep) => replace_selector_exec(src, n, rep.as_slice()),
                None => None,
            }
        },
        Node::Other { node_type, children: cs, .. } => if eq_str(node_type.as_slice(), "ParenthesesNode") && cs.len() > 0 {
            match &cs[0] {
                Node::Statements { body, .. } => if body.len() > 0 {
                    proof {
                        crate::ast::lemma_children_decrease(*n);
                        crate::ast::lemma_children_decrease(cs@[0]);
                        assert(decreases_to!(cs@[0] => body@.last()));
                    }
                    invert_negated_expr_exec(src, &body[body.len() - 1], methods)
                } else {
                    None
                },
                _ => None,
            }
        } else {
            None
        },
        _ => None,
    }
}

fn has_next_exec(b: &Node) -> (r: bool)
    ensures
        r == has_next(*b),
{
    let body = match b {
        Node::Block { body: Some(body), .. } => &**body,
        _ => {
            return false;
        },
    };
    let mut found: Vec<&Node> = Vec::new();
    walk_pruned(body, &OwnScope, &mut found);
    let ghost ns = found@.map_values(|x: &Node| *x);
    assert(ns =~= pruned(*body, OwnScope));
    let mut i: usize = 0;
    while i < found.len()
        invariant
            i <= found@.len(),
            ns == found@.map_values(|x: &Node| *x),
            ns == pruned(*body, OwnScope),
            *b matches Node::Block { body: Some(bd), .. } && *bd == *body,
            forall|j: int| 0 <= j < i ==> !is_other(#[trigger] ns[j], "NextNode".spec_bytes()),
        decreases found@.len() - i,
    {
        assert(ns[i as int] == *found[i as int]);
        if is_other_exec(found[i], "NextNode") {
            assert(is_other(pruned(*body, OwnScope)[i as int], "NextNode".spec_bytes()));
            return true;
        }
        i = i + 1;
    }
    false
}

impl InverseMethods {
    pub fn name(&self) -> &'static str {
        "Style/InverseMethods"
    }

    /// The offense of one inversion at the `!` call `n` and its correction.
    fn push_part(&self, source: &SourceFile, n: &Node, c: &Node, inv: &[u8], out: &mut Vec<Diagnostic>, fixes: &mut Vec<Correction>)
        requires
            c is Call,
        ensures
            offenses(final(out)@) == offenses(old(out)@) + negation_part(source.text(), *n, *c, inv@).0,
            edits(final(fixes)@) == edits(old(fixes)@) + negation_part(source.text(), *n, *c, inv@).1,
    {
        let ghost o = offenses(out@);
        let ghost e = edits(fixes@);
        let l = n.loc();
        let (line, column) = source.position(l.start);
        let cname = match c {
            Node::Call { name, .. } => name.as_slice(),
            _ => {
                let e: &[u8] = &[];
                e
            },
        };
        out.push(diagnostic(line, column, inverse_message_exec(inv, cname)));
        match replace_selector_exec(source.as_bytes(), c, inv) {
            Some(r) => {
                fixes.push(Correction { start: l.start, end: l.end, replacement: r });
            },
            None => {},
        }
        assert(offenses(out@) =~= o + negation_part(source.text(), *n, *c, inv@).0);
        assert(edits(fixes@) =~= e + negation_part(source.text(), *n, *c, inv@).1);
    }

    /// The offenses at the call `node` and their corrections, with the
    /// configured inverse pairs.
    #[verifier::rlimit(30)]
    pub fn check_node(&self, source: &SourceFile, node: &Node, cfg: &InverseMethodsConfig) -> (r: (Vec<Diagnostic>, Vec<Correction>))
        requires
            well_formed_negation(source.text(), *node),
        ensures
            (offenses(r.0@), edits(r.1@)) == spec_check_node(source.text(), *node, *cfg),
    {
        let mut out: Vec<Diagnostic> = Vec::new();
        let mut fixes: Vec<Correction> = Vec::new();
        let ghost spec = spec_check_node(source.text(), *node, *cfg);
        let src = source.as_bytes();
        let mo = cfg.inverse_methods.as_ref();
        let bo = cfg.inverse_blocks.as_ref();
        assert(opt_view(mo) == cfg.methods_view());
        assert(opt_view(bo) == cfg.blocks_view());
        let methods = build_inverse_map(mo);
        let name = match node {
            Node::Call { name, .. } => name,
            _ => {
                assert(offenses(out@) =~= spec.0 && edits(fixes@) =~= spec.1);
                return (out, fixes);
            },
        };
        if eq_str(name.as_slice(), "!") {
            let blocks = build_inverse_blocks(bo);
            if is_double_negation_exec(src, node) {
                assert(offenses(out@) =~= spec.0 && edits(fixes@) =~= spec.1);
                return (out, fixes);
            }
            let c = match inner_call_exec(node) {
                Some(c) => c,
                None => {
                    assert(offenses(out@) =~= spec.0 && edits(fixes@) =~= spec.1);
                    return (out, fixes);
                },
            };
            let (cname, cblock, safe_nav) = match c {
                Node::Call { name: cname, block, call_operator_loc, .. } => {
                    let incompatible = match call_operator_loc {
                        Some(op) => eq_str(text_or_empty_exec(src, op.start, op.end), "&.") && {
                            let m = cname.as_slice();
                            eq_str(m, "any?") || eq_str(m, "none?") || eq_str(m, "<") || eq_str(m, ">")
                                || eq_str(m, "<=") || eq_str(m, ">=")
                        },
                        None => false,
                    };
                    (cname, block.is_some(), incompatible)
                },
                _ => {
                    assert(false);
                    return (out, fixes);
                },
            };
            if safe_nav {
                assert(offenses(out@) =~= spec.0 && edits(fixes@) =~= spec.1);
                return (out, fixes);
            }
            let m = cname.as_slice();
            match lookup_exec(&methods, m) {
                Some(inv) => {
                    if is_comparison_operator(m) && has_constant_operand_exec(c) {
                        assert(offenses(out@) =~= spec.0 && edits(fixes@) =~= spec.1);
                        return (out, fixes);
                    }
                    self.push_part(source, node, c, inv.as_slice(), &mut out, &mut fixes);
                },
                None => {},
            }
            if cblock {
                match lookup_exec(&blocks, m) {
                    Some(inv) => {
                        self.push_part(source, node, c, inv.as_slice(), &mut out, &mut fixes);
                    },
                    None => {},
                }
            }
            assert(offenses(out@) =~= spec.0 && edits(fixes@) =~= spec.1);
            return (out, fixes);
        }
        let blocks_bang = build_inverse_blocks_with_bang(bo);
        match node {
            Node::Call { block: Some(b), message_loc, loc, .. } => match lookup_exec(&blocks_bang, name.as_slice()) {
                Some(inv) => {
                    let is_block = match &**b {
                        Node::Block { .. } => true,
                        _ => false,
                    };
                    let last: Option<&Node> = match &**b {
                        Node::Block { body: Some(body), .. } => match &**body {
                            Node::Statements { body: stmts, .. } => if stmts.len() > 0 {
                                Some(&stmts[stmts.len() - 1])
                            } else {
                                None
                            },
                            _ => None,
                        },
                        _ => None,
                    };
                    assert(match last {
                        Some(x) => last_statement(**b) == Some(*x),
                        None => last_statement(**b) is None,
                    });
                    match last {
                        Some(last) => if is_block && is_negated_expr_exec(last) && !has_next_exec(b) {
                            let (line, column) = source.position(loc.start);
                            out.push(diagnostic(line, column, inverse_message_exec(inv.as_slice(), name.as_slice())));
                            match message_loc {
                                Some(ml) => match invert_negated_expr_exec(src, last, &methods) {
                                    Some(rep) => {
                                        let ll = last.loc();
                                        fixes.push(Correction { start: ml.start, end: ml.end, replacement: crate::diagnostic::slice_to_vec(inv.as_slice()) });
                                        fixes.push(Correction { start: ll.start, end: ll.end, replacement: rep });
                                    },
                                    None => {},
                                },
                                None => {},
                            }
                        },
                        None => {},
                    }
                },
                None => {},
            },
            _ => {},
        }
        assert(offenses(out@) =~= spec.0 && edits(fixes@) =~= spec.1);
        (out, fixes)
    }
}

/// The default inverse methods go both ways: the inverse of a method's
/// inverse is the method itself.
pub proof fn law_default_inverses_are_mutual(i: int)
    requires
        0 <= i < default_inverse_methods().len(),
    ensures
        lookup(default_inverse_methods(), default_inverse_methods()[i].1) == Some(default_inverse_methods()[i].0),
{
    let d = default_inverse_methods();
    assert(d.len() == 12);
    let j = if i % 2 == 0 { i + 1 } else { i - 1 };
    assert(d[j].0 == d[i].1 && d[j].1 == d[i].0);
    assert forall|l: int| j < l < 12 implies #[trigger] d[l].0 != d[i].1 by {
        lemma_default_keys_differ(i, l);
    }
    lemma_lookup_last(d, j);
}

/// The length, first and last byte of a name.
pub open spec fn key_shape(k: Seq<u8>) -> (int, u8, u8) {
    (k.len() as int, k[0], k[k.len() - 1])
}

/// The shapes of the default keys, which tell the keys apart.
proof fn lemma_default_key_shapes()
    ensures
        default_inverse_methods().len() == 12,
        forall|l: int| #![trigger default_inverse_methods()[l]]
            0 <= l < 12 && l % 2 == 0 ==> default_inverse_methods()[l].1 == default_inverse_methods()[l + 1].0,
        forall|l: int| #![trigger default_inverse_methods()[l]]
            0 <= l < 12 && l % 2 == 1 ==> default_inverse_methods()[l].1 == default_inverse_methods()[l - 1].0,
        forall|a: int, b: int| #![trigger default_inverse_methods()[a], default_inverse_methods()[b]]
            0 <= a < 12 && 0 <= b < 12 && a != b ==> key_shape(default_inverse_methods()[a].0) != key_shape(
                default_inverse_methods()[b].0,
            ),
{
    reveal_strlit("any?");
    reveal_strlit("none?");
    reveal_strlit("even?");
    reveal_strlit("odd?");
    reveal_strlit("==");
    reveal_strlit("!=");
    reveal_strlit("=~");
    reveal_strlit("!~");
    reveal_strlit("<");
    reveal_strlit(">=");
    reveal_strlit(">");
    reveal_strlit("<=");
    assert(vstd::string::is_ascii("any?"));
    assert("any?".spec_bytes() =~= seq![97u8, 110u8, 121u8, 63u8]);
    assert(vstd::string::is_ascii("none?"));
    assert("none?".spec_bytes() =~= seq![110u8, 111u8, 110u8, 101u8, 63u8]);
    assert(vstd::string::is_ascii("even?"));
    assert("even?".spec_bytes() =~= seq![101u8, 118u8, 101u8, 110u8, 63u8]);
    assert(vstd::string::is_ascii("odd?"));
    assert("odd?".spec_bytes() =~= seq![111u8, 100u8, 100u8, 63u8]);
    assert(vstd::string::is_ascii("=="));
    assert("==".spec_bytes() =~= seq![61u8, 61u8]);
    assert(vstd::string::is_ascii("!="));
    assert("!=".spec_bytes() =~= seq![33u8, 61u8]);
    assert(vstd::string::is_ascii("=~"));
    assert("=~".spec_bytes() =~= seq![61u8, 126u8]);
    assert(vstd::string::is_ascii("!~"));
    assert("!~".spec_bytes() =~= seq![33u8, 126u8]);
    assert(vstd::string::is_ascii("<"));
    assert("<".spec_bytes() =~= seq![60u8]);
    assert(vstd::string::is_ascii(">="));
    assert(">=".spec_bytes() =~= seq![62u8, 61u8]);
    assert(vstd::string::is_ascii(">"));
    assert(">".spec_bytes() =~= seq![62u8]);
    assert(vstd::string::is_ascii("<="));
    assert("<=".spec_bytes() =~= seq![60u8, 61u8]);
    let d = default_inverse_methods();
    assert(d[0] == ("any?".spec_bytes(), "none?".spec_bytes()));
    assert(d[1] == ("none?".spec_bytes(), "any?".spec_bytes()));
    assert(d[2] == ("even?".spec_bytes(), "odd?".spec_bytes()));
    assert(d[3] == ("odd?".spec_bytes(), "even?".spec_bytes()));
    assert(d[4] == ("==".spec_bytes(), "!=".spec_bytes()));
    assert(d[5] == ("!=".spec_bytes(), "==".spec_bytes()));
    assert(d[6] == ("=~".spec_bytes(), "!~".spec_bytes()));
    assert(d[7] == ("!~".spec_bytes(), "=~".spec_bytes()));
    assert(d[8] == ("<".spec_bytes(), ">=".spec_bytes()));
    assert(d[9] == (">=".spec_bytes(), "<".spec_bytes()));
    assert(d[10] == (">".spec_bytes(), "<=".spec_bytes()));
    assert(d[11] == ("<=".spec_bytes(), ">".spec_bytes()));
    assert(d[0].0 =~= seq![97u8, 110u8, 121u8, 63u8]);
    assert(key_shape(d[0].0) == (4int, 97u8, 63u8));
    assert(d[1].0 =~= seq![110u8, 111u8, 110u8, 101u8, 63u8]);
    assert(key_shape(d[1].0) == (5int, 110u8, 63u8));
    assert(d[2].0 =~= seq![101u8, 118u8, 101u8, 110u8, 63u8]);
    assert(key_shape(d[2].0) == (5int, 101u8, 63u8));
    assert(d[3].0 =~= seq![111u8, 100u8, 100u8, 63u8]);
    assert(key_shape(d[3].0) == (4int, 111u8, 63u8));
    assert(d[4].0 =~= seq![61u8, 61u8]);
    assert(key_shape(d[4].0) == (2int, 61u8, 61u8));
    assert(d[5].0 =~= seq![33u8, 61u8]);
    assert(key_shape(d[5].0) == (2int, 33u8, 61u8));
    assert(d[6].0 =~= seq![61u8, 126u8]);
    assert(key_shape(d[6].0) == (2int, 61u8, 126u8));
    assert(d[7].0 =~= seq![33u8, 126u8]);
    assert(key_shape(d[7].0) == (2int, 33u8, 126u8));
    assert(d[8].0 =~= seq![60u8]);
    assert(key_shape(d[8].0) == (1int, 60u8, 60u8));
    assert(d[9].0 =~= seq![62u8, 61u8]);
    assert(key_shape(d[9].0) == (2int, 62u8, 61u8));
    assert(d[10].0 =~= seq![62u8]);
    assert(key_shape(d[10].0) == (1int, 62u8, 62u8));
    assert(d[11].0 =~= seq![60u8, 61u8]);
    assert(key_shape(d[11].0) == (2int, 60u8, 61u8));
}

/// The default keys differ except where a pair and its inverse meet.
proof fn lemma_default_keys_differ(i: int, l: int)
    requires
        0 <= i < 12,
        0 <= l < 12,
        l != (if i % 2 == 0 { i + 1 } else { i - 1 }),
    ensures
        default_inverse_methods()[l].0 != default_inverse_methods()[i].1,
{
    lemma_default_key_shapes();
    let d = default_inverse_methods();
    let j = if i % 2 == 0 { i + 1 } else { i - 1 };
    assert(d[i].1 == d[j].0);
    if d[l].0 == d[j].0 {
        assert(key_shape(d[l].0) == key_shape(d[j].0));
    }
}

/// `lookup` finds the pair at `j` when no later pair has its key.
proof fn lemma_lookup_last(m: Seq<(Seq<u8>, Seq<u8>)>, j: int)
    requires
        0 <= j < m.len(),
        forall|l: int| j < l < m.len() ==> #[trigger] m[l].0 != m[j].0,
    ensures
        lookup(m, m[j].0) == Some(m[j].1),
    decreases m.len(),
{
    if j < m.len() - 1 {
        assert(m.last() == m[m.len() - 1]);
        let p = m.drop_last();
        assert forall|l: int| j < l < p.len() implies #[trigger] p[l].0 != p[j].0 by {
            assert(p[l] == m[l]);
        }
        lemma_lookup_last(p, j);
    }
}

/// The default inverse block methods go both ways.
pub proof fn law_default_inverse_blocks_are_mutual(i: int)
    requires
        0 <= i < default_inverse_blocks().len(),
    ensures
        lookup(default_inverse_blocks(), default_inverse_blocks()[i].1) == Some(default_inverse_blocks()[i].0),
{
    reveal_strlit("select");
    reveal_strlit("reject");
    reveal_with_fuel(lookup, 3);
}

/// The default inverse of a comparison operator.
pub open spec fn comparison_inverse(op: Seq<u8>) -> Seq<u8> {
    if op == "<".spec_bytes() {
        ">=".spec_bytes()
    } else if op == ">=".spec_bytes() {
        "<".spec_bytes()
    } else if op == ">".spec_bytes() {
        "<=".spec_bytes()
    } else {
        ">".spec_bytes()
    }
}

/// Whether `o` holds `x`.
pub open spec fn holds(o: Option<Box<Node>>, x: Node) -> bool {
    match o {
        Some(b) => *b == x,
        None => false,
    }
}

/// `r` is `c` itself or `c` alone in parentheses.
pub open spec fn is_or_wraps(r: Node, c: Node) -> bool {
    ||| r == c
    ||| is_other(r, "ParenthesesNode".spec_bytes()) && children(r).len() > 0 && (children(r)[0] matches Node::Statements {
        body,
        ..
    } && body@ == seq![c])
}

/// Neither a constant name nor a constant path.
pub open spec fn not_a_constant(n: Node) -> bool {
    !(n matches Node::Named { kind: NamedKind::ConstantRead, .. }) && !(n is ConstantPath)
}

/// Under the default inverse methods, each comparison operator finds its
/// inverse.
proof fn lemma_comparison_lookup(op: Seq<u8>)
    requires
        op == "<".spec_bytes() || op == ">=".spec_bytes() || op == ">".spec_bytes() || op == "<=".spec_bytes(),
    ensures
        lookup(default_inverse_methods(), op) == Some(comparison_inverse(op)),
{
    lemma_default_key_shapes();
    let d = default_inverse_methods();
    let j: int = if op == "<".spec_bytes() {
        8
    } else if op == ">=".spec_bytes() {
        9
    } else if op == ">".spec_bytes() {
        10
    } else {
        11
    };
    let i: int = if j % 2 == 0 { j + 1 } else { j - 1 };
    assert(d[j].0 == op);
    assert(d[j].1 == comparison_inverse(op));
    assert(d[i].1 == d[j].0);
    assert forall|l: int| j < l < d.len() implies #[trigger] d[l].0 != d[j].0 by {
        lemma_default_keys_differ(i, l);
    }
    lemma_lookup_last(d, j);
}

/// With the default inverses, `!(a OP b)` for a comparison `OP` whose
/// operands are not constants (and that is not `&.`, has no block, and is
/// not the inner `!` of a `!!`) is reported once, as the operator's inverse
/// `INV`, and corrected to `a INV b`.
pub proof fn law_negated_comparison_is_inverted(src: Seq<u8>, n: Node, r: Node, c: Node, cfg: InverseMethodsConfig)
    requires
        cfg.inverse_methods is None,
        cfg.inverse_blocks is None,
        n is Call,
        n->Call_name@ == "!".spec_bytes(),
        holds(n->Call_receiver, r),
        n->Call_message_loc is Some,
        n->Call_message_loc->0.start <= src.len(),
        n->Call_message_loc->0.start == 0 || (src[n->Call_message_loc->0.start - 1] != 33u8
            && src[n->Call_message_loc->0.start - 1] != 32u8 && src[n->Call_message_loc->0.start - 1] != 9u8),
        is_or_wraps(r, c),
        c is Call,
        c->Call_name@ == "<".spec_bytes() || c->Call_name@ == ">=".spec_bytes() || c->Call_name@ == ">".spec_bytes()
            || c->Call_name@ == "<=".spec_bytes(),
        c->Call_call_operator_loc is None,
        c->Call_block is None,
        c->Call_message_loc is Some,
        c->Call_receiver matches Some(a) ==> not_a_constant(*a),
        forall|i: int| 0 <= i < c.call_args().len() ==> not_a_constant(#[trigger] c.call_args()[i]),
    ensures
        ({
            let op = c->Call_name@;
            let inv = comparison_inverse(op);
            let l = n.spec_loc();
            let cm = c->Call_message_loc->0;
            spec_check_node(src, n, cfg) == (
                seq![offense(spec_line_of(src, l.start as int), spec_column_of(src, l.start as int),
                    "Use `".spec_bytes() + inv + "` instead of inverting `".spec_bytes() + op + "`.".spec_bytes())],
                seq![Edit {
                    start: l.start as int,
                    end: l.end as int,
                    replacement: text_or_empty(src, c.spec_loc().start as int, cm.start as int) + inv
                        + text_or_empty(src, cm.end as int, c.spec_loc().end as int),
                }],
            )
        }),
{
    let op = c->Call_name@;
    let ms = n->Call_message_loc->0.start;
    if ms > 0 {
        assert(back_over_blanks(src, ms - 1) == ms - 1);
    }
    assert(!is_double_negation(src, n));
    assert(inner_call(n) == Some(c));
    assert(!is_safe_navigation_incompatible(src, c));
    lemma_comparison_lookup(op);
    assert(spec_is_comparison_operator(op));
    assert(!has_constant_operand(c)) by {
        if exists|i: int| 0 <= i < c.call_args().len() && is_constant(#[trigger] c.call_args()[i]) {
            let i = choose|i: int| 0 <= i < c.call_args().len() && is_constant(#[trigger] c.call_args()[i]);
            assert(not_a_constant(c.call_args()[i]));
        }
    }
    vstd::utf8::encode_utf8_valid_utf8("<"@);
    vstd::utf8::encode_utf8_valid_utf8(">="@);
    vstd::utf8::encode_utf8_valid_utf8(">"@);
    vstd::utf8::encode_utf8_valid_utf8("<="@);
    assert(shown_name(op) == op);
    assert(spec_inverse_map(cfg.methods_view()) == default_inverse_methods());
}

} // verus!
