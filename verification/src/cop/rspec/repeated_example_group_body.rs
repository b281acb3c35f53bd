//! RSpec/RepeatedExampleGroupBody: sibling example groups with identical bodies.
//!
//! Bodies are compared by a structural signature of their syntax trees, so
//! `'foo'` and `"foo"`, `foo(1)` and `foo 1`, and bodies that differ only in
//! comments or layout compare equal.
use vstd::prelude::*;
use vstd::string::StringSliceAdditionalSpecFns;
use crate::ast::{is_top_constant_exec, NamedKind, Node};
use crate::bytes::{eq_str, src_range, src_range_exec};
use crate::cop::util::{is_rspec_example_group, spec_is_rspec_example_group};
use crate::diagnostic::{
    decimal, decimal_bytes, offense, offenses, push_bytes, push_str, Diagnostic, Offense,
};
use crate::source::{line_start, nl_count, SourceFile};

verus! {

/// The cop.
pub struct RepeatedExampleGroupBody;

/// The tokens of a byte string in a signature.
pub open spec fn tok_bytes(b: Seq<u8>) -> Seq<u64> {
    seq![4u64, b.len() as u64] + b.map_values(|x: u8| x as u64)
}

/// A marker token.
pub open spec fn tok_mark(c: u64) -> Seq<u64> {
    seq![3u64, c]
}

pub open spec fn named_index(k: NamedKind) -> u64 {
    match k {
        NamedKind::ConstantRead => 0,
        NamedKind::ConstantWrite => 1,
        NamedKind::ConstantTarget => 2,
        NamedKind::LocalVariableRead => 3,
        NamedKind::LocalVariableWrite => 4,
        NamedKind::LocalVariableTarget => 5,
        NamedKind::InstanceVariableRead => 6,
        NamedKind::InstanceVariableWrite => 7,
        NamedKind::InstanceVariableTarget => 8,
        NamedKind::ClassVariableRead => 9,
        NamedKind::ClassVariableWrite => 10,
        NamedKind::ClassVariableTarget => 11,
        NamedKind::ClassVariableAndWrite => 12,
        NamedKind::ClassVariableOrWrite => 13,
        NamedKind::ClassVariableOperatorWrite => 14,
        NamedKind::GlobalVariableRead => 15,
        NamedKind::GlobalVariableWrite => 16,
        NamedKind::GlobalVariableTarget => 17,
        NamedKind::RequiredParameter => 18,
        NamedKind::OptionalParameter => 19,
        NamedKind::RestParameter => 20,
        NamedKind::KeywordRestParameter => 21,
        NamedKind::BlockParameter => 22,
        NamedKind::RequiredKeywordParameter => 23,
        NamedKind::OptionalKeywordParameter => 24,
        NamedKind::BlockLocalVariable => 25,
    }
}

/// Whether the signature of a named node includes its name.  The `and`,
/// `or` and operator writes of class variables do not.
pub open spec fn named_hashes_name(k: NamedKind) -> bool {
    !(k == NamedKind::ClassVariableAndWrite || k == NamedKind::ClassVariableOrWrite
        || k == NamedKind::ClassVariableOperatorWrite)
}

/// Whether the signature of a named node descends into its value.
pub open spec fn named_visits_value(k: NamedKind) -> bool {
    ||| k == NamedKind::ConstantWrite
    ||| k == NamedKind::LocalVariableWrite
    ||| k == NamedKind::InstanceVariableWrite
    ||| k == NamedKind::ClassVariableWrite
    ||| k == NamedKind::GlobalVariableWrite
    ||| k == NamedKind::ClassVariableAndWrite
    ||| k == NamedKind::ClassVariableOrWrite
    ||| k == NamedKind::ClassVariableOperatorWrite
    ||| k == NamedKind::OptionalParameter
    ||| k == NamedKind::OptionalKeywordParameter
}

/// The signature of an optional location's source text (empty when absent).
pub open spec fn sig_loc_text(src: Seq<u8>, l: Option<crate::source::Loc>) -> Seq<u64> {
    match l {
        Some(l) => tok_bytes(src_range(src, l.start as int, l.end as int)),
        None => Seq::empty(),
    }
}

/// The structural signature of a node: its type, the names and literal values
/// it holds, and the signatures of its children.  Parentheses, quoting and
/// layout do not enter it.
pub open spec fn sig(src: Seq<u8>, n: Node) -> Seq<u64>
    decreases n,
{
    match n {
        Node::Program { statements, .. } => seq![0u64, 0] + sig(src, *statements),
        Node::Statements { body, .. } => seq![0u64, 1] + sig_list(src, body@, Seq::empty()),
        Node::Arguments { arguments, .. } => seq![0u64, 2] + sig_list(
            src,
            arguments@,
            Seq::empty(),
        ),
        Node::Call { receiver, call_operator_loc, name, arguments, block, .. } => {
            seq![0u64, 3] + tok_bytes(name@) + sig_loc_text(src, call_operator_loc) + (
            match receiver {
                Some(r) => tok_mark(82) + sig(src, *r),
                None => Seq::empty(),
            }) + (match arguments {
                Some(a) => match *a {
                    Node::Arguments { arguments: args, .. } => sig_list(src, args@, tok_mark(65)),
                    _ => Seq::empty(),
                },
                None => Seq::empty(),
            }) + (match block {
                Some(b) => tok_mark(66) + sig(src, *b),
                None => Seq::empty(),
            })
        },
        Node::Block { parameters, body, .. } => seq![0u64, 4] + sig_opt(src, parameters) + sig_opt(
            src,
            body,
        ),
        Node::BlockArgument { expression, .. } => seq![0u64, 5] + sig_opt(src, expression),
        Node::BlockParameters { parameters, locals, .. } => seq![0u64, 6] + sig_opt(
            src,
            parameters,
        ) + sig_list(src, locals@, Seq::empty()),
        Node::Parameters { requireds, optionals, rest, posts, keywords, keyword_rest, block, .. } =>
            seq![0u64, 7] + sig_list(src, requireds@, Seq::empty()) + sig_list(
            src,
            optionals@,
            Seq::empty(),
        ) + sig_opt(src, rest) + sig_list(src, posts@, Seq::empty()) + sig_list(
            src,
            keywords@,
            Seq::empty(),
        ) + sig_opt(src, keyword_rest) + sig_opt(src, block),
        Node::If { predicate, statements, subsequent, .. } => seq![0u64, 8] + sig(src, *predicate)
            + sig_opt(src, statements) + sig_opt(src, subsequent),
        Node::Unless { predicate, statements, else_clause, .. } => seq![0u64, 9] + sig(
            src,
            *predicate,
        ) + sig_opt(src, statements) + sig_opt(src, else_clause),
        Node::Else { statements, .. } => seq![0u64, 10] + sig_opt(src, statements),
        Node::Str { unescaped, .. } => seq![0u64, 11] + tok_bytes(unescaped@),
        Node::InterpolatedStr { parts, .. } => seq![0u64, 12] + sig_list(
            src,
            parts@,
            Seq::empty(),
        ),
        Node::Symbol { unescaped, .. } => seq![0u64, 13] + tok_bytes(unescaped@),
        Node::XStr { unescaped, .. } => seq![0u64, 14] + tok_bytes(unescaped@),
        Node::InterpolatedXStr { parts, .. } => seq![0u64, 15] + sig_list(
            src,
            parts@,
            Seq::empty(),
        ),
        Node::Integer { loc } => seq![0u64, 16] + tok_bytes(
            src_range(src, loc.start as int, loc.end as int),
        ),
        Node::Float { loc } => seq![0u64, 17] + tok_bytes(
            src_range(src, loc.start as int, loc.end as int),
        ),
        Node::RegularExpression { closing_loc, unescaped, .. } => seq![0u64, 18] + tok_bytes(
            unescaped@,
        ) + tok_bytes(src_range(src, closing_loc.start as int, closing_loc.end as int)),
        Node::ConstantPath { parent, name, .. } => seq![0u64, 19] + (match parent {
            Some(p) => tok_mark(80) + sig(src, *p),
            None => Seq::empty(),
        }) + (if name@.len() > 0 {
            tok_bytes(name@)
        } else {
            Seq::empty()
        }),
        Node::Def { name, receiver, parameters, body, .. } => seq![0u64, 20] + tok_bytes(name@)
            + sig_opt(src, receiver) + sig_opt(src, parameters) + sig_opt(src, body),
        Node::Range { left, right, operator_loc, .. } => seq![0u64, 21] + tok_bytes(
            src_range(src, operator_loc.start as int, operator_loc.end as int),
        ) + sig_opt(src, left) + sig_opt(src, right),
        Node::Hash { elements, .. } => seq![0u64, 22] + sig_list(src, elements@, Seq::empty()),
        Node::KeywordHash { elements, .. } => seq![0u64, 23] + sig_list(
            src,
            elements@,
            Seq::empty(),
        ),
        Node::Assoc { key, value, .. } => seq![0u64, 24] + sig(src, *key) + sig(src, *value),
        Node::Implicit { value, .. } => seq![0u64, 25] + sig(src, *value),
        Node::Array { elements, .. } => seq![0u64, 26] + sig_list(src, elements@, Seq::empty()),
        Node::For { index, collection, statements, .. } => seq![0u64, 27] + sig(src, *index)
            + sig(src, *collection) + sig_opt(src, statements),
        Node::PostExecution { statements, .. } => seq![0u64, 28] + sig_opt(src, statements),
        Node::Named { kind, name, value, .. } => seq![1u64, named_index(kind)] + (
        if named_hashes_name(kind) && name@.len() > 0 {
            tok_bytes(name@)
        } else {
            Seq::empty()
        }) + (if named_visits_value(kind) {
            sig_opt(src, value)
        } else {
            Seq::empty()
        }),
        Node::Other { node_type, children, .. } => seq![2u64] + tok_bytes(node_type@) + sig_list(
            src,
            children@,
            Seq::empty(),
        ),
    }
}

/// The signature of an optional child (empty when absent).
pub open spec fn sig_opt(src: Seq<u8>, o: Option<Box<Node>>) -> Seq<u64>
    decreases o,
{
    match o {
        Some(b) => sig(src, *b),
        None => Seq::empty(),
    }
}

/// The signatures of a list of children, each preceded by `mark`.
pub open spec fn sig_list(src: Seq<u8>, s: Seq<Node>, mark: Seq<u64>) -> Seq<u64>
    decreases s,
{
    if s.len() == 0 {
        Seq::empty()
    } else {
        sig_list(src, s.drop_last(), mark) + mark + sig(src, s.last())
    }
}

fn push_tok_bytes(out: &mut Vec<u64>, b: &[u8])
    ensures
        final(out)@ == old(out)@ + tok_bytes(b@),
{
    let ghost o = out@;
    out.push(4u64);
    out.push(b.len() as u64);
    let mut i: usize = 0;
    while i < b.len()
        invariant
            i <= b@.len(),
            out@ == o + seq![4u64, b@.len() as u64] + b@.subrange(0, i as int).map_values(
                |x: u8| x as u64,
            ),
        decreases b@.len() - i,
    {
        out.push(b[i] as u64);
        i = i + 1;
        assert(b@.subrange(0, i as int).map_values(|x: u8| x as u64) =~= b@.subrange(
            0,
            i - 1,
        ).map_values(|x: u8| x as u64).push(b@[i - 1] as u64));
    }
    assert(b@.subrange(0, b@.len() as int) =~= b@);
}

fn push_mark(out: &mut Vec<u64>, c: u64)
    ensures
        final(out)@ == old(out)@ + tok_mark(c),
{
    let ghost o = out@;
    out.push(3u64);
    out.push(c);
    assert(out@ =~= o + tok_mark(c));
}

fn push_pair(out: &mut Vec<u64>, a: u64, b: u64)
    ensures
        final(out)@ == old(out)@ + seq![a, b],
{
    let ghost o = out@;
    out.push(a);
    out.push(b);
    assert(out@ =~= o + seq![a, b]);
}

fn named_index_exec(k: NamedKind) -> (r: u64)
    ensures
        r == named_index(k),
{
    match k {
        NamedKind::ConstantRead => 0,
        NamedKind::ConstantWrite => 1,
        NamedKind::ConstantTarget => 2,
        NamedKind::LocalVariableRead => 3,
        NamedKind::LocalVariableWrite => 4,
        NamedKind::LocalVariableTarget => 5,
        NamedKind::InstanceVariableRead => 6,
        NamedKind::InstanceVariableWrite => 7,
        NamedKind::InstanceVariableTarget => 8,
        NamedKind::ClassVariableRead => 9,
        NamedKind::ClassVariableWrite => 10,
        NamedKind::ClassVariableTarget => 11,
        NamedKind::ClassVariableAndWrite => 12,
        NamedKind::ClassVariableOrWrite => 13,
        NamedKind::ClassVariableOperatorWrite => 14,
        NamedKind::GlobalVariableRead => 15,
        NamedKind::GlobalVariableWrite => 16,
        NamedKind::GlobalVariableTarget => 17,
        NamedKind::RequiredParameter => 18,
        NamedKind::OptionalParameter => 19,
        NamedKind::RestParameter => 20,
        NamedKind::KeywordRestParameter => 21,
        NamedKind::BlockParameter => 22,
        NamedKind::RequiredKeywordParameter => 23,
        NamedKind::OptionalKeywordParameter => 24,
        NamedKind::BlockLocalVariable => 25,
    }
}

fn push_loc_text(src: &[u8], l: Option<crate::source::Loc>, out: &mut Vec<u64>)
    ensures
        final(out)@ == old(out)@ + sig_loc_text(src@, l),
{
    match l {
        Some(l) => push_tok_bytes(out, src_range_exec(src, l.start, l.end)),
        None => {
            assert(out@ =~= out@ + Seq::<u64>::empty());
        },
    }
}

/// Appends the signature of `n` to `out`.
#[verifier::rlimit(100)]
#[verifier::spinoff_prover]
pub fn push_sig(src: &[u8], n: &Node, out: &mut Vec<u64>)
    ensures
        final(out)@ == old(out)@ + sig(src@, *n),
    decreases n,
{
    let ghost o = out@;
    match n {
        Node::Program { statements, .. } => {
            push_pair(out, 0, 0);
            push_sig(src, statements, out);
        },
        Node::Statements { body, .. } => {
            push_pair(out, 0, 1);
            push_sig_list(src, body, None, out);
        },
        Node::Arguments { arguments, .. } => {
            push_pair(out, 0, 2);
            push_sig_list(src, arguments, None, out);
        },
        Node::Call { receiver, call_operator_loc, name, arguments, block, .. } => {
            push_pair(out, 0, 3);
            push_tok_bytes(out, name.as_slice());
            push_loc_text(src, *call_operator_loc, out);
            let ghost o1 = out@;
            match receiver {
                Some(r) => {
                    push_mark(out, 82);
                    push_sig(src, r, out);
                },
                None => {},
            }
            let ghost o2 = out@;
            match arguments {
                Some(a) => match &**a {
                    Node::Arguments { arguments: args, .. } => {
                        push_sig_list(src, args, Some(65), out);
                    },
                    _ => {},
                },
                None => {},
            }
            let ghost o3 = out@;
            match block {
                Some(b) => {
                    push_mark(out, 66);
                    push_sig(src, b, out);
                },
                None => {},
            }
        },
        Node::Block { parameters, body, .. } => {
            push_pair(out, 0, 4);
            push_sig_opt(src, parameters, out);
            push_sig_opt(src, body, out);
        },
        Node::BlockArgument { expression, .. } => {
            push_pair(out, 0, 5);
            push_sig_opt(src, expression, out);
        },
        Node::BlockParameters { parameters, locals, .. } => {
            push_pair(out, 0, 6);
            push_sig_opt(src, parameters, out);
            push_sig_list(src, locals, None, out);
        },
        Node::Parameters { requireds, optionals, rest, posts, keywords, keyword_rest, block, .. } => {
            push_pair(out, 0, 7);
            push_sig_list(src, requireds, None, out);
            push_sig_list(src, optionals, None, out);
            push_sig_opt(src, rest, out);
            push_sig_list(src, posts, None, out);
            push_sig_list(src, keywords, None, out);
            push_sig_opt(src, keyword_rest, out);
            push_sig_opt(src, block, out);
        },
        Node::If { predicate, statements, subsequent, .. } => {
            push_pair(out, 0, 8);
            push_sig(src, predicate, out);
            push_sig_opt(src, statements, out);
            push_sig_opt(src, subsequent, out);
        },
        Node::Unless { predicate, statements, else_clause, .. } => {
            push_pair(out, 0, 9);
            push_sig(src, predicate, out);
            push_sig_opt(src, statements, out);
            push_sig_opt(src, else_clause, out);
        },
        Node::Else { statements, .. } => {
            push_pair(out, 0, 10);
            push_sig_opt(src, statements, out);
        },
        Node::Str { unescaped, .. } => {
            push_pair(out, 0, 11);
            push_tok_bytes(out, unescaped.as_slice());
        },
        Node::InterpolatedStr { parts, .. } => {
            push_pair(out, 0, 12);
            push_sig_list(src, parts, None, out);
        },
        Node::Symbol { unescaped, .. } => {
            push_pair(out, 0, 13);
            push_tok_bytes(out, unescaped.as_slice());
        },
        Node::XStr { unescaped, .. } => {
            push_pair(out, 0, 14);
            push_tok_bytes(out, unescaped.as_slice());
        },
        Node::InterpolatedXStr { parts, .. } => {
            push_pair(out, 0, 15);
            push_sig_list(src, parts, None, out);
        },
        Node::Integer { loc } => {
            push_pair(out, 0, 16);
            push_tok_bytes(out, src_range_exec(src, loc.start, loc.end));
        },
        Node::Float { loc } => {
            push_pair(out, 0, 17);
            push_tok_bytes(out, src_range_exec(src, loc.start, loc.end));
        },
        Node::RegularExpression { closing_loc, unescaped, .. } => {
            push_pair(out, 0, 18);
            push_tok_bytes(out, unescaped.as_slice());
            push_tok_bytes(out, src_range_exec(src, closing_loc.start, closing_loc.end));
        },
        Node::ConstantPath { parent, name, .. } => {
            push_pair(out, 0, 19);
            match parent {
                Some(p) => {
                    push_mark(out, 80);
                    push_sig(src, p, out);
                },
                None => {},
            }
            if name.len() > 0 {
                push_tok_bytes(out, name.as_slice());
            }
        },
        Node::Def { name, receiver, parameters, body, .. } => {
            push_pair(out, 0, 20);
            push_tok_bytes(out, name.as_slice());
            push_sig_opt(src, receiver, out);
            push_sig_opt(src, parameters, out);
            push_sig_opt(src, body, out);
        },
        Node::Range { left, right, operator_loc, .. } => {
            push_pair(out, 0, 21);
            push_tok_bytes(out, src_range_exec(src, operator_loc.start, operator_loc.end));
            push_sig_opt(src, left, out);
            push_sig_opt(src, right, out);
        },
        Node::Hash { elements, .. } => {
            push_pair(out, 0, 22);
            push_sig_list(src, elements, None, out);
        },
        Node::KeywordHash { elements, .. } => {
            push_pair(out, 0, 23);
            push_sig_list(src, elements, None, out);
        },
        Node::Assoc { key, value, .. } => {
            push_pair(out, 0, 24);
            push_sig(src, key, out);
            push_sig(src, value, out);
        },
        Node::Implicit { value, .. } => {
            push_pair(out, 0, 25);
            push_sig(src, value, out);
        },
        Node::Array { elements, .. } => {
            push_pair(out, 0, 26);
            push_sig_list(src, elements, None, out);
        },
        Node::For { index, collection, statements, .. } => {
            push_pair(out, 0, 27);
            push_sig(src, index, out);
            push_sig(src, collection, out);
            push_sig_opt(src, statements, out);
        },
        Node::PostExecution { statements, .. } => {
            push_pair(out, 0, 28);
            push_sig_opt(src, statements, out);
        },
        Node::Named { kind, name, value, .. } => {
            push_pair(out, 1, named_index_exec(*kind));
            let hashes_name = match kind {
                NamedKind::ClassVariableAndWrite => false,
                NamedKind::ClassVariableOrWrite => false,
                NamedKind::ClassVariableOperatorWrite => false,
                _ => true,
            };
            if hashes_name && name.len() > 0 {
                push_tok_bytes(out, name.as_slice());
            }
            let visits_value = match kind {
                NamedKind::ConstantWrite => true,
                NamedKind::LocalVariableWrite => true,
                NamedKind::InstanceVariableWrite => true,
                NamedKind::ClassVariableWrite => true,
                NamedKind::GlobalVariableWrite => true,
                NamedKind::ClassVariableAndWrite => true,
                NamedKind::ClassVariableOrWrite => true,
                NamedKind::ClassVariableOperatorWrite => true,
                NamedKind::OptionalParameter => true,
                NamedKind::OptionalKeywordParameter => true,
                _ => false,
            };
            if visits_value {
                push_sig_opt(src, value, out);
            }
        },
        Node::Other { node_type, children, .. } => {
            out.push(2u64);
            push_tok_bytes(out, node_type.as_slice());
            push_sig_list(src, children, None, out);
        },
    }
    assert(out@ =~= o + sig(src@, *n));
}

fn push_sig_opt(src: &[u8], o: &Option<Box<Node>>, out: &mut Vec<u64>)
    ensures
        final(out)@ == old(out)@ + sig_opt(src@, *o),
    decreases o,
{
    match o {
        Some(b) => push_sig(src, b, out),
        None => {
            assert(out@ =~= out@ + Seq::<u64>::empty());
        },
    }
}

fn push_sig_list(src: &[u8], v: &Vec<Node>, mark: Option<u64>, out: &mut Vec<u64>)
    ensures
        final(out)@ == old(out)@ + sig_list(
            src@,
            v@,
            match mark {
                Some(c) => tok_mark(c),
                None => Seq::empty(),
            },
        ),
    decreases v,
{
    let ghost m = match mark {
        Some(c) => tok_mark(c),
        None => Seq::<u64>::empty(),
    };
    let ghost o = out@;
    let mut i: usize = 0;
    assert(v@.subrange(0, 0) =~= Seq::<Node>::empty());
    while i < v.len()
        invariant
            i <= v@.len(),
            m == match mark {
                Some(c) => tok_mark(c),
                None => Seq::<u64>::empty(),
            },
            out@ == o + sig_list(src@, v@.subrange(0, i as int), m),
        decreases v@.len() - i,
    {
        let ghost before = out@;
        match mark {
            Some(c) => push_mark(out, c),
            None => {},
        }
        assert(decreases_to!(v => v@));
        push_sig(src, &v[i], out);
        assert(v@.subrange(0, i + 1).drop_last() =~= v@.subrange(0, i as int));
        i = i + 1;
    }
    assert(v@.subrange(0, v@.len() as int) =~= v@);
}

/// A call that opens an example group eligible for comparison: a plain,
/// focused or skipped group (not a shared group), without receiver or on
/// `RSpec`.
pub open spec fn is_group_for_body(n: Node) -> bool {
    &&& n matches Node::Call { name, receiver, .. }
    &&& !crate::cop::util::spec_is_rspec_shared_group(n->Call_name@)
    &&& spec_is_rspec_example_group(n->Call_name@)
    &&& match n->Call_receiver {
        None => true,
        Some(r) => r.is_top_constant("RSpec".spec_bytes()),
    }
}

/// A body that consists of one `skip` or `pending` call without a block.
pub open spec fn is_skip_or_pending_body(body: Node) -> bool {
    &&& body matches Node::Statements { body: stmts, .. }
    &&& stmts@.len() == 1
    &&& stmts@[0] matches Node::Call { name, block: None, .. }
    &&& (stmts@[0]->Call_name@ == "skip".spec_bytes() || stmts@[0]->Call_name@
        == "pending".spec_bytes())
}

/// The body of the `do ... end` or `{ ... }` block of a call, if any.
pub open spec fn block_body(n: Node) -> Option<Node> {
    match n {
        Node::Call { block: Some(b), .. } => match *b {
            Node::Block { body: Some(body), .. } => Some(*body),
            _ => None,
        },
        _ => None,
    }
}

/// Whether a node is a constant reference (`Foo` or `A::B`).
pub open spec fn is_constant_ref(n: Node) -> bool {
    n matches Node::Named { kind: NamedKind::ConstantRead, .. } || n matches Node::ConstantPath { .. }
}

/// The signature of a group's arguments: a first argument counts when it is a
/// constant; every later argument is metadata.
pub open spec fn meta_sig(src: Seq<u8>, args: Seq<Node>) -> Seq<u64> {
    (if args.len() > 0 && is_constant_ref(args[0]) {
        tok_mark(67) + sig(src, args[0])
    } else {
        Seq::empty()
    }) + (if args.len() > 1 {
        sig_list(src, args.subrange(1, args.len() as int), tok_mark(77))
    } else {
        Seq::empty()
    })
}

/// An example group that takes part in the comparison.
pub struct GroupEntry {
    pub line: int,
    pub column: int,
    pub name: Seq<u8>,
    pub signature: Seq<u64>,
}

/// The comparison entry for a statement, if it is a group with a comparable body.
pub open spec fn entry_of(src: Seq<u8>, n: Node) -> Option<GroupEntry> {
    if is_group_for_body(n) && block_body(n) is Some && !is_skip_or_pending_body(
        block_body(n)->0,
    ) {
        Some(
            GroupEntry {
                line: crate::source::spec_line_of(src, n.spec_loc().start as int),
                column: crate::source::spec_column_of(src, n.spec_loc().start as int),
                name: n->Call_name@,
                signature: sig(src, block_body(n)->0) + meta_sig(src, n.call_args()),
            },
        )
    } else {
        None
    }
}

/// The entries of a list of sibling statements, in order.
pub open spec fn entries(src: Seq<u8>, stmts: Seq<Node>) -> Seq<GroupEntry>
    decreases stmts.len(),
{
    if stmts.len() == 0 {
        Seq::empty()
    } else {
        entries(src, stmts.drop_last()) + match entry_of(src, stmts.last()) {
            Some(e) => seq![e],
            None => Seq::empty(),
        }
    }
}

/// The lines of the entries among the first `k` that repeat entry `i`'s body.
pub open spec fn repeat_lines(es: Seq<GroupEntry>, i: int, k: int) -> Seq<int>
    decreases k,
{
    if k <= 0 {
        Seq::empty()
    } else {
        repeat_lines(es, i, k - 1) + if k - 1 != i && es[k - 1].signature == es[i].signature {
            seq![es[k - 1].line]
        } else {
            Seq::empty()
        }
    }
}

/// Line numbers joined by `", "`.
pub open spec fn join_lines(ls: Seq<int>) -> Seq<u8>
    decreases ls.len(),
{
    if ls.len() == 0 {
        Seq::empty()
    } else if ls.len() == 1 {
        decimal(ls[0] as nat)
    } else {
        join_lines(ls.drop_last()) + ", ".spec_bytes() + decimal(ls.last() as nat)
    }
}

/// The group type shown in the message: the method name without a leading
/// `f` or `x`.
pub open spec fn display_type(name: Seq<u8>) -> Seq<u8> {
    if name.len() > 0 && (name[0] == 102u8 || name[0] == 120u8) {
        name.drop_first()
    } else {
        name
    }
}

pub open spec fn repeat_message(name: Seq<u8>, lines: Seq<int>) -> Seq<u8> {
    "Repeated ".spec_bytes() + display_type(name) + " block body on line(s) [".spec_bytes()
        + join_lines(lines) + "]".spec_bytes()
}

/// The offenses for the first `k` entries: each entry whose body repeats
/// another's.
pub open spec fn group_report(es: Seq<GroupEntry>, k: int) -> Seq<Offense>
    decreases k,
{
    if k <= 0 {
        Seq::empty()
    } else {
        let i = k - 1;
        let others = repeat_lines(es, i, es.len() as int);
        group_report(es, k - 1) + if others.len() > 0 {
            seq![offense(es[i].line, es[i].column, repeat_message(es[i].name, others))]
        } else {
            Seq::empty()
        }
    }
}

/// The offenses for a list of sibling statements.
pub open spec fn sibling_offenses(src: Seq<u8>, stmts: Seq<Node>) -> Seq<Offense> {
    let es = entries(src, stmts);
    group_report(es, es.len() as int)
}

/// The offenses the cop reports at a node: at the program root and inside
/// the block body of any call.
pub open spec fn spec_check_node(src: Seq<u8>, n: Node) -> Seq<Offense> {
    match n {
        Node::Program { statements, .. } => sibling_offenses(src, statements.statement_list()),
        Node::Call { .. } => match block_body(n) {
            Some(body) => sibling_offenses(src, body.statement_list()),
            None => Seq::empty(),
        },
        _ => Seq::empty(),
    }
}

pub struct EntryExec {
    pub line: usize,
    pub column: usize,
    pub name: Vec<u8>,
    pub signature: Vec<u64>,
}

impl View for EntryExec {
    type V = GroupEntry;

    open spec fn view(&self) -> GroupEntry {
        GroupEntry {
            line: self.line as int,
            column: self.column as int,
            name: self.name@,
            signature: self.signature@,
        }
    }
}

fn is_group_for_body_exec(n: &Node) -> (r: bool)
    ensures
        r == is_group_for_body(*n),
{
    match n {
        Node::Call { name, receiver, .. } => {
            if crate::cop::util::is_rspec_shared_group(name.as_slice()) {
                return false;
            }
            if !is_rspec_example_group(name.as_slice()) {
                return false;
            }
            match receiver {
                None => true,
                Some(r) => is_top_constant_exec(r, "RSpec"),
            }
        },
        _ => false,
    }
}

fn block_body_exec(n: &Node) -> (r: Option<&Node>)
    ensures
        match r {
            Some(b) => block_body(*n) == Some(*b),
            None => block_body(*n) is None,
        },
{
    match n {
        Node::Call { block: Some(b), .. } => match &**b {
            Node::Block { body: Some(body), .. } => Some(&**body),
            _ => None,
        },
        _ => None,
    }
}

fn is_skip_or_pending_body_exec(body: &Node) -> (r: bool)
    ensures
        r == is_skip_or_pending_body(*body),
{
    match body {
        Node::Statements { body: stmts, .. } => {
            if stmts.len() != 1 {
                return false;
            }
            match &stmts[0] {
                Node::Call { name, block: None, .. } => eq_str(name.as_slice(), "skip") || eq_str(
                    name.as_slice(),
                    "pending",
                ),
                _ => false,
            }
        },
        _ => false,
    }
}

fn push_meta_sig(src: &[u8], n: &Node, out: &mut Vec<u64>)
    requires
        n is Call,
    ensures
        final(out)@ == old(out)@ + meta_sig(src@, n.call_args()),
{
    let ghost o = out@;
    match n {
        Node::Call { arguments: Some(a), .. } => match &**a {
            Node::Arguments { arguments: args, .. } => {
                if args.len() > 0 {
                    let first_const = match &args[0] {
                        Node::Named { kind: NamedKind::ConstantRead, .. } => true,
                        Node::ConstantPath { .. } => true,
                        _ => false,
                    };
                    if first_const {
                        push_mark(out, 67);
                        push_sig(src, &args[0], out);
                    }
                }
                let ghost o1 = out@;
                if args.len() > 1 {
                    let mut i: usize = 1;
                    assert(args@.subrange(1, 1) =~= Seq::<Node>::empty());
                    while i < args.len()
                        invariant
                            1 <= i <= args@.len(),
                            out@ == o1 + sig_list(src@, args@.subrange(1, i as int), tok_mark(77)),
                        decreases args@.len() - i,
                    {
                        push_mark(out, 77);
                        push_sig(src, &args[i], out);
                        assert(args@.subrange(1, i + 1).drop_last() =~= args@.subrange(1, i as int));
                        i = i + 1;
                    }
                }
                assert(out@ =~= o + meta_sig(src@, n.call_args()));
            },
            _ => {
                assert(out@ =~= o + meta_sig(src@, n.call_args()));
            },
        },
        _ => {
            assert(out@ =~= o + meta_sig(src@, n.call_args()));
        },
    }
}

fn entry_of_exec(source: &SourceFile, n: &Node) -> (r: Option<EntryExec>)
    ensures
        match r {
            Some(e) => entry_of(source.text(), *n) == Some(e@),
            None => entry_of(source.text(), *n) is None,
        },
{
    if !is_group_for_body_exec(n) {
        return None;
    }
    let body = match block_body_exec(n) {
        Some(b) => b,
        None => return None,
    };
    if is_skip_or_pending_body_exec(body) {
        return None;
    }
    let src = source.as_bytes();
    let mut signature: Vec<u64> = Vec::new();
    push_sig(src, body, &mut signature);
    push_meta_sig(src, n, &mut signature);
    let (line, column) = source.position(n.loc().start);
    let name = match n {
        Node::Call { name, .. } => name.clone(),
        _ => Vec::new(),
    };
    proof {
        assert(signature@ =~= sig(source.text(), block_body(*n)->0) + meta_sig(
            source.text(),
            n.call_args(),
        ));
    }
    Some(EntryExec { line, column, name, signature })
}

pub fn join_lines_exec(es: &Vec<EntryExec>, i: usize) -> (r: (Vec<u8>, usize))
    requires
        i < es@.len(),
    ensures
        r.0@ == join_lines(repeat_lines(es@.map_values(|e: EntryExec| e@), i as int, es@.len() as int)),
        r.1 == repeat_lines(es@.map_values(|e: EntryExec| e@), i as int, es@.len() as int).len(),
{
    let ghost ev = es@.map_values(|e: EntryExec| e@);
    let mut out: Vec<u8> = Vec::new();
    let mut count: usize = 0;
    let mut k: usize = 0;
    while k < es.len()
        invariant
            i < es@.len(),
            k <= es@.len(),
            ev == es@.map_values(|e: EntryExec| e@),
            out@ == join_lines(repeat_lines(ev, i as int, k as int)),
            count == repeat_lines(ev, i as int, k as int).len(),
            count <= k,
        decreases es@.len() - k,
    {
        let ghost prev = repeat_lines(ev, i as int, k as int);
        if k != i && crate::bytes::u64s_eq(es[k].signature.as_slice(), es[i].signature.as_slice()) {
            if count > 0 {
                push_str(&mut out, ", ");
            }
            let d = decimal_bytes(es[k].line);
            push_bytes(&mut out, d.as_slice());
            count = count + 1;
            proof {
                let cur = repeat_lines(ev, i as int, k + 1);
                assert(cur =~= prev.push(es@[k as int].line as int));
                assert(cur.drop_last() =~= prev);
            }
        }
        k = k + 1;
    }
    (out, count)
}

/// The offenses for a list of sibling statements.
pub fn check_sibling_groups(source: &SourceFile, stmts: &Vec<Node>) -> (r: Vec<Diagnostic>)
    ensures
        offenses(r@) == sibling_offenses(source.text(), stmts@),
{
    let mut es: Vec<EntryExec> = Vec::new();
    let mut j: usize = 0;
    while j < stmts.len()
        invariant
            j <= stmts@.len(),
            es@.map_values(|e: EntryExec| e@) == entries(source.text(), stmts@.subrange(0, j as int)),
        decreases stmts@.len() - j,
    {
        let ghost prev = es@.map_values(|e: EntryExec| e@);
        match entry_of_exec(source, &stmts[j]) {
            Some(e) => {
                es.push(e);
            },
            None => {},
        }
        proof {
            assert(stmts@.subrange(0, j + 1).drop_last() =~= stmts@.subrange(0, j as int));
            assert(es@.map_values(|e: EntryExec| e@) =~= entries(
                source.text(),
                stmts@.subrange(0, j + 1),
            ));
        }
        j = j + 1;
    }
    assert(stmts@.subrange(0, stmts@.len() as int) =~= stmts@);
    let ghost ev = es@.map_values(|e: EntryExec| e@);
    let mut out: Vec<Diagnostic> = Vec::new();
    let mut i: usize = 0;
    while i < es.len()
        invariant
            i <= es@.len(),
            ev == es@.map_values(|e: EntryExec| e@),
            offenses(out@) == group_report(ev, i as int),
        decreases es@.len() - i,
    {
        let (lines, count) = join_lines_exec(&es, i);
        if count > 0 {
            let name = es[i].name.as_slice();
            let mut msg: Vec<u8> = Vec::new();
            push_str(&mut msg, "Repeated ");
            let shown = if name.len() > 0 && (name[0] == 102u8 || name[0] == 120u8) {
                crate::bytes::subslice(name, 1, name.len())
            } else {
                name
            };
            push_bytes(&mut msg, shown);
            push_str(&mut msg, " block body on line(s) [");
            push_bytes(&mut msg, lines.as_slice());
            push_str(&mut msg, "]");
            proof {
                assert(shown@ =~= display_type(ev[i as int].name));
                assert(msg@ =~= repeat_message(
                    ev[i as int].name,
                    repeat_lines(ev, i as int, ev.len() as int),
                ));
            }
            out.push(crate::diagnostic::diagnostic(es[i].line, es[i].column, msg));
        }
        proof {
            assert(offenses(out@) =~= group_report(ev, i + 1));
        }
        i = i + 1;
    }
    out
}

impl RepeatedExampleGroupBody {
    pub fn name(&self) -> &'static str {
        "RSpec/RepeatedExampleGroupBody"
    }

    /// The offenses at `node`: repeated sibling groups among the top-level
    /// statements, or among the statements of a call's block.
    pub fn check_node(&self, source: &SourceFile, node: &Node) -> (r: Vec<Diagnostic>)
        ensures
            offenses(r@) == spec_check_node(source.text(), *node),
    {
        match node {
            Node::Program { statements, .. } => match &**statements {
                Node::Statements { body, .. } => check_sibling_groups(source, body),
                _ => {
                    let empty: Vec<Node> = Vec::new();
                    let r = check_sibling_groups(source, &empty);
                    assert(empty@ =~= statements.statement_list());
                    r
                },
            },
            Node::Call { .. } => match block_body_exec(node) {
                Some(body) => match body {
                    Node::Statements { body: stmts, .. } => check_sibling_groups(source, stmts),
                    _ => {
                        let empty: Vec<Node> = Vec::new();
                        let r = check_sibling_groups(source, &empty);
                        assert(empty@ =~= body.statement_list());
                        r
                    },
                },
                None => Vec::new(),
            },
            _ => Vec::new(),
        }
    }
}

/// The lines listed for entry `i` include that of every other entry with
/// the same body among the first `k`, and only such lines.
proof fn lemma_repeat_lines(es: Seq<GroupEntry>, i: int, k: int)
    requires
        0 <= k <= es.len(),
    ensures
        forall|j: int| 0 <= j < k && j != i && es[j].signature == es[i].signature ==> repeat_lines(es, i, k).contains(
            #[trigger] es[j].line,
        ),
        repeat_lines(es, i, k).len() > 0 ==> exists|j: int| 0 <= j < k && j != i && #[trigger] es[j].signature == es[i].signature,
    decreases k,
{
    if k > 0 {
        lemma_repeat_lines(es, i, k - 1);
        let prev = repeat_lines(es, i, k - 1);
        assert forall|j: int| 0 <= j < k && j != i && es[j].signature == es[i].signature implies repeat_lines(es, i, k).contains(
            #[trigger] es[j].line,
        ) by {
            if j < k - 1 {
                let w = choose|t: int| 0 <= t < prev.len() && prev[t] == es[j].line;
                assert(repeat_lines(es, i, k)[w] == es[j].line);
            } else {
                assert(repeat_lines(es, i, k)[prev.len() as int] == es[j].line);
            }
        }
        if repeat_lines(es, i, k).len() > 0 && prev.len() == 0 {
            assert(k - 1 != i && es[k - 1].signature == es[i].signature);
        }
    }
}

/// Repetition is mutual: when two groups among siblings have the same body,
/// each is reported with the other's line among its repeats.
pub proof fn law_repetition_is_mutual(es: Seq<GroupEntry>, i: int, j: int)
    requires
        0 <= i < es.len(),
        0 <= j < es.len(),
        i != j,
        es[i].signature == es[j].signature,
    ensures
        repeat_lines(es, i, es.len() as int).contains(es[j].line),
        repeat_lines(es, j, es.len() as int).contains(es[i].line),
{
    lemma_repeat_lines(es, i, es.len() as int);
    lemma_repeat_lines(es, j, es.len() as int);
}

/// A group is reported exactly when another sibling group has the same body.
pub proof fn law_reported_iff_repeated(es: Seq<GroupEntry>, i: int)
    requires
        0 <= i < es.len(),
    ensures
        repeat_lines(es, i, es.len() as int).len() > 0 <==> exists|j: int|
            0 <= j < es.len() && j != i && #[trigger] es[j].signature == es[i].signature,
{
    lemma_repeat_lines(es, i, es.len() as int);
    if exists|j: int| 0 <= j < es.len() && j != i && #[trigger] es[j].signature == es[i].signature {
        let j = choose|j: int| 0 <= j < es.len() && j != i && #[trigger] es[j].signature == es[i].signature;
        assert(repeat_lines(es, i, es.len() as int).contains(es[j].line));
    }
}

} // verus!
