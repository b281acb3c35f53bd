//! Security/CompoundHash: hash values combined by hand in a `hash` method,
//! `[x].hash` on a single value, and `.hash` on elements of a hashed array.
use vstd::prelude::*;
use vstd::string::StringSliceAdditionalSpecFns;
use crate::ast::{call_args_exec, pruned, walk_pruned, Node, PruneRule};
use crate::bytes::eq_str;
use crate::diagnostic::{diagnostic, offense, offenses, str_bytes, Diagnostic, Offense};
use crate::source::{spec_column_of, spec_line_of, SourceFile};

verus! {

/// The cop.
pub struct CompoundHash;

pub open spec fn combinator_msg() -> Seq<u8> {
    "Use `[...].hash` instead of combining hash values manually.".spec_bytes()
}

pub open spec fn monuple_msg() -> Seq<u8> {
    "Delegate hash directly without wrapping in an array when only using a single value.".spec_bytes()
}

pub open spec fn redundant_msg() -> Seq<u8> {
    "Calling `.hash` on elements of a hashed array is redundant.".spec_bytes()
}

pub open spec fn spec_is_combinator_op(name: Seq<u8>) -> bool {
    ||| name == "^".spec_bytes()
    ||| name == "+".spec_bytes()
    ||| name == "*".spec_bytes()
    ||| name == "|".spec_bytes()
}

/// A call of a combining operator.
pub open spec fn is_combinator_call(n: Node) -> bool {
    n matches Node::Call { name, .. } && spec_is_combinator_op(name@)
}

/// The search for combinators stops at the outermost combinator call and does
/// not enter method definitions.  (Operator assignments such as `h ^= x`
/// carry their operator token with the `=`, which is never a combinator, so
/// the search simply goes on into them.)
#[derive(Clone, Copy)]
pub struct CombinatorScope;

impl PruneRule for CombinatorScope {
    open spec fn stops(self, n: Node) -> bool {
        is_combinator_call(n) || n is Def
    }

    fn stops_exec(&self, n: &Node) -> (r: bool) {
        match n {
            Node::Call { name, .. } => is_combinator_op(name.as_slice()),
            Node::Def { .. } => true,
            _ => false,
        }
    }
}

/// One offense per combinator call among `nodes`, in order.
pub open spec fn combinator_offenses(src: Seq<u8>, nodes: Seq<Node>) -> Seq<Offense>
    decreases nodes.len(),
{
    if nodes.len() == 0 {
        Seq::empty()
    } else {
        combinator_offenses(src, nodes.drop_last()) + if is_combinator_call(nodes.last()) {
            seq![
                offense(
                    spec_line_of(src, nodes.last().spec_loc().start as int),
                    spec_column_of(src, nodes.last().spec_loc().start as int),
                    combinator_msg(),
                ),
            ]
        } else {
            Seq::empty()
        }
    }
}

/// The outermost combinators in a `hash` body, outside nested definitions.
pub open spec fn body_offenses(src: Seq<u8>, body: Node) -> Seq<Offense> {
    combinator_offenses(src, pruned(body, CombinatorScope))
}

/// `define_method` or `define_singleton_method`.
pub open spec fn is_define_method(name: Seq<u8>) -> bool {
    name == "define_method".spec_bytes() || name == "define_singleton_method".spec_bytes()
}

/// Whether the first argument of `n` is the symbol `:hash`.
pub open spec fn first_arg_is_hash_symbol(n: Node) -> bool {
    &&& n->Call_arguments is Some
    &&& n.call_args().len() > 0
    &&& is_symbol_named(n.call_args()[0], "hash".spec_bytes())
}

/// A symbol literal with the given name.
pub open spec fn is_symbol_named(n: Node, name: Seq<u8>) -> bool {
    n matches Node::Symbol { unescaped, .. } && unescaped@ == name
}

/// A `.hash` call on an element: with receiver, without arguments.
pub open spec fn is_hash_call(e: Node) -> bool {
    e matches Node::Call { name, arguments: None, receiver: Some(_), .. } && name@
        == "hash".spec_bytes()
}

/// One offense per element that calls `.hash`.
pub open spec fn redundant_offenses(src: Seq<u8>, es: Seq<Node>) -> Seq<Offense>
    decreases es.len(),
{
    if es.len() == 0 {
        Seq::empty()
    } else {
        redundant_offenses(src, es.drop_last()) + if is_hash_call(es.last()) {
            seq![
                offense(
                    spec_line_of(src, es.last().spec_loc().start as int),
                    spec_column_of(src, es.last().spec_loc().start as int),
                    redundant_msg(),
                ),
            ]
        } else {
            Seq::empty()
        }
    }
}

/// The offenses of `[...].hash` (no arguments, array receiver).
pub open spec fn array_hash_offenses(src: Seq<u8>, n: Node) -> Seq<Offense> {
    match n {
        Node::Call { name, arguments: None, receiver: Some(r), message_loc, .. } => if name@
            == "hash".spec_bytes() {
            match *r {
                Node::Array { elements, .. } => if elements@.len() == 1 {
                    match message_loc {
                        Some(m) => seq![
                            offense(
                                spec_line_of(src, m.start as int),
                                spec_column_of(src, m.start as int),
                                monuple_msg(),
                            ),
                        ],
                        None => Seq::empty(),
                    }
                } else if elements@.len() >= 2 {
                    redundant_offenses(src, elements@)
                } else {
                    Seq::empty()
                },
                _ => Seq::empty(),
            }
        } else {
            Seq::empty()
        },
        _ => Seq::empty(),
    }
}

/// The offenses at `n`.
pub open spec fn spec_check_node(src: Seq<u8>, n: Node) -> Seq<Offense> {
    match n {
        Node::Def { name, body, .. } => if name@ == "hash".spec_bytes() {
            match body {
                Some(b) => body_offenses(src, *b),
                None => Seq::empty(),
            }
        } else {
            Seq::empty()
        },
        Node::Call { name, block, .. } => if is_define_method(name@) && first_arg_is_hash_symbol(
            n,
        ) {
            match block {
                Some(b) => match *b {
                    Node::Block { body: Some(body), .. } => body_offenses(src, *body),
                    _ => Seq::empty(),
                },
                None => Seq::empty(),
            }
        } else {
            array_hash_offenses(src, n)
        },
        _ => Seq::empty(),
    }
}

pub fn is_combinator_op(name: &[u8]) -> (r: bool)
    ensures
        r == spec_is_combinator_op(name@),
{
    eq_str(name, "^") || eq_str(name, "+") || eq_str(name, "*") || eq_str(name, "|")
}

impl CompoundHash {
    pub fn name(&self) -> &'static str {
        "Security/CompoundHash"
    }

    fn check_body(&self, source: &SourceFile, body: &Node, out: &mut Vec<Diagnostic>)
        ensures
            offenses(final(out)@) == offenses(old(out)@) + body_offenses(source.text(), *body),
    {
        let mut found: Vec<&Node> = Vec::new();
        walk_pruned(body, &CombinatorScope, &mut found);
        let ghost nodes = found@.map_values(|x: &Node| *x);
        assert(nodes =~= pruned(*body, CombinatorScope));
        let ghost start = offenses(out@);
        let mut i: usize = 0;
        assert(nodes.subrange(0, 0) =~= Seq::<Node>::empty());
        while i < found.len()
            invariant
                i <= found@.len(),
                nodes == found@.map_values(|x: &Node| *x),
                offenses(out@) == start + combinator_offenses(
                    source.text(),
                    nodes.subrange(0, i as int),
                ),
            decreases found@.len() - i,
        {
            let n = found[i];
            assert(nodes.subrange(0, i + 1).drop_last() =~= nodes.subrange(0, i as int));
            assert(nodes.subrange(0, i + 1).last() == *n);
            let ghost before = out@;
            match n {
                Node::Call { name, .. } => {
                    if is_combinator_op(name.as_slice()) {
                        let (line, column) = source.position(n.loc().start);
                        out.push(
                            diagnostic(
                                line,
                                column,
                                str_bytes(
                                    "Use `[...].hash` instead of combining hash values manually.",
                                ),
                            ),
                        );
                        assert(offenses(out@) =~= offenses(before) + seq![offenses(out@).last()]);
                    }
                },
                _ => {},
            }
            assert(offenses(out@) =~= start + combinator_offenses(
                source.text(),
                nodes.subrange(0, i + 1),
            ));
            i = i + 1;
        }
        assert(nodes.subrange(0, nodes.len() as int) =~= nodes);
    }

    /// The offenses at `node`: combinators in `def hash` or
    /// `define_method(:hash) { ... }`, and the array forms of `.hash`.
    pub fn check_node(&self, source: &SourceFile, node: &Node) -> (r: Vec<Diagnostic>)
        ensures
            offenses(r@) == spec_check_node(source.text(), *node),
    {
        let mut out: Vec<Diagnostic> = Vec::new();
        assert(offenses(out@) =~= Seq::<Offense>::empty());
        match node {
            Node::Def { name, body, .. } => {
                if eq_str(name.as_slice(), "hash") {
                    match body {
                        Some(b) => self.check_body(source, b, &mut out),
                        None => {},
                    }
                }
                return out;
            },
            _ => {},
        }
        let (name, block, arguments, receiver, message_loc) = match node {
            Node::Call { name, block, arguments, receiver, message_loc, .. } => (
                name,
                block,
                arguments,
                receiver,
                message_loc,
            ),
            _ => {
                return out;
            },
        };
        if eq_str(name.as_slice(), "define_method") || eq_str(
            name.as_slice(),
            "define_singleton_method",
        ) {
            if arguments.is_some() {
                let args = call_args_exec(node);
                if args.len() > 0 {
                    let is_hash_sym = match &args[0] {
                        Node::Symbol { unescaped, .. } => eq_str(unescaped.as_slice(), "hash"),
                        _ => false,
                    };
                    if is_hash_sym {
                        match block {
                            Some(b) => match &**b {
                                Node::Block { body: Some(body), .. } => {
                                    self.check_body(source, body, &mut out);
                                },
                                _ => {},
                            },
                            None => {},
                        }
                        return out;
                    }
                }
            }
        }
        if !eq_str(name.as_slice(), "hash") || arguments.is_some() {
            return out;
        }
        let elements = match receiver {
            Some(r) => match &**r {
                Node::Array { elements, .. } => elements,
                _ => {
                    return out;
                },
            },
            None => {
                return out;
            },
        };
        if elements.len() == 1 {
            match message_loc {
                Some(m) => {
                    let (line, column) = source.position(m.start);
                    out.push(
                        diagnostic(
                            line,
                            column,
                            str_bytes(
                                "Delegate hash directly without wrapping in an array when only using a single value.",
                            ),
                        ),
                    );
                },
                None => {},
            }
            assert(offenses(out@) =~= spec_check_node(source.text(), *node));
            return out;
        }
        if elements.len() >= 2 {
            let ghost src = source.text();
            let mut i: usize = 0;
            assert(elements@.subrange(0, 0) =~= Seq::<Node>::empty());
            while i < elements.len()
                invariant
                    i <= elements@.len(),
                    src == source.text(),
                    offenses(out@) == redundant_offenses(src, elements@.subrange(0, i as int)),
                decreases elements@.len() - i,
            {
                let e = &elements[i];
                assert(elements@.subrange(0, i + 1).drop_last() =~= elements@.subrange(0, i as int));
                let ghost before = out@;
                let hit = match e {
                    Node::Call { name: en, arguments: None, receiver: Some(_), .. } => eq_str(
                        en.as_slice(),
                        "hash",
                    ),
                    _ => false,
                };
                if hit {
                    let (line, column) = source.position(e.loc().start);
                    out.push(
                        diagnostic(
                            line,
                            column,
                            str_bytes("Calling `.hash` on elements of a hashed array is redundant."),
                        ),
                    );
                    assert(offenses(out@) =~= offenses(before) + seq![offenses(out@).last()]);
                }
                assert(offenses(out@) =~= redundant_offenses(src, elements@.subrange(0, i + 1)));
                i = i + 1;
            }
            assert(elements@.subrange(0, elements@.len() as int) =~= elements@);
        }
        out
    }
}

} // verus!
