//! RSpec/AroundBlock: an `around` hook that never runs its example.
//!
//! The block must take the example and somewhere in its body call `run` or
//! `call` on it, pass it on (as an argument, as a block argument, or to
//! `yield`), or `yield`.
use vstd::prelude::*;
use vstd::string::StringSliceAdditionalSpecFns;
use crate::ast::{call_args_exec, children, flatten, is_other, is_other_exec, preorder, NamedKind, Node};
use crate::bytes::{bytes_eq, eq_str, utf8_is_valid};
use crate::diagnostic::{diagnostic, offense, offenses, push_bytes, push_str, str_bytes, Diagnostic, Offense};
use crate::source::{spec_column_of, spec_line_of, Loc, SourceFile};

verus! {

/// The cop.
pub struct AroundBlock;

/// The first required parameter of a block: its name (when it is a plain
/// name) and its location.
pub open spec fn first_required(b: Node) -> Option<Node> {
    match b {
        Node::Block { parameters: Some(p), .. } => match *p {
            Node::BlockParameters { parameters: Some(pp), .. } => match *pp {
                Node::Parameters { requireds, .. } => if requireds@.len() > 0 {
                    Some(requireds@[0])
                } else {
                    None
                },
                _ => None,
            },
            _ => None,
        },
        _ => None,
    }
}

/// The name of the example parameter, if the first required parameter is a
/// plain name.
pub open spec fn param_name(b: Node) -> Option<Seq<u8>> {
    match first_required(b) {
        Some(Node::Named { kind: NamedKind::RequiredParameter, name, .. }) => Some(name@),
        _ => None,
    }
}

/// A reference to the parameter: a local variable read or a bare call of
/// that name.
pub open spec fn is_param_ref(n: Node, name: Seq<u8>) -> bool {
    match n {
        Node::Named { kind: NamedKind::LocalVariableRead, name: nm, .. } => nm@ == name,
        Node::Call { receiver: None, arguments: None, name: nm, .. } => nm@ == name,
        _ => false,
    }
}

pub open spec fn any_ref(args: Seq<Node>, name: Seq<u8>) -> bool {
    exists|i: int| 0 <= i < args.len() && is_param_ref(#[trigger] args[i], name)
}

/// The arguments of a `yield`.
pub open spec fn yield_args(n: Node) -> Seq<Node> {
    if is_other(n, "YieldNode".spec_bytes()) && children(n).len() > 0 && children(n)[0] is Arguments {
        children(n)[0]->Arguments_arguments@
    } else {
        Seq::empty()
    }
}

/// A node that runs or passes on the example named `name`.
pub open spec fn uses_param(n: Node, name: Seq<u8>) -> bool {
    match n {
        Node::Call { name: m, receiver, block, .. } => {
            ||| ((m@ == "run".spec_bytes() || m@ == "call".spec_bytes()) && match receiver {
                Some(r) => is_param_ref(*r, name),
                None => false,
            })
            ||| any_ref(n.call_args(), name)
            ||| match block {
                Some(b) => match *b {
                    Node::BlockArgument { expression: Some(e), .. } => is_param_ref(*e, name),
                    _ => false,
                },
                None => false,
            }
        },
        _ => any_ref(yield_args(n), name),
    }
}

/// `_1` as a local variable read.
pub open spec fn is_numbered_read(n: Node) -> bool {
    n matches Node::Named { kind: NamedKind::LocalVariableRead, name, .. } && name@ == "_1".spec_bytes()
}

pub open spec fn any_numbered(args: Seq<Node>) -> bool {
    exists|i: int| 0 <= i < args.len() && is_numbered_read(#[trigger] args[i])
}

/// A call that runs or passes on the numbered parameter `_1`.
pub open spec fn uses_numbered(n: Node) -> bool {
    match n {
        Node::Call { name: m, receiver, block, .. } => {
            ||| ((m@ == "run".spec_bytes() || m@ == "call".spec_bytes()) && match receiver {
                Some(r) => is_numbered_read(*r) || (*r matches Node::Call { name: rn, receiver: None, .. } && rn@ == "_1".spec_bytes()),
                None => false,
            })
            ||| any_numbered(n.call_args())
            ||| match block {
                Some(b) => match *b {
                    Node::BlockArgument { expression: Some(e), .. } => is_numbered_read(*e),
                    _ => false,
                },
                None => false,
            }
        },
        _ => false,
    }
}

/// Some node of the block's body satisfies `p`.
pub open spec fn body_has(b: Node, p: spec_fn(Node) -> bool) -> bool {
    match b {
        Node::Block { body: Some(body), .. } => exists|i: int| 0 <= i < flatten(*body).len() && p(#[trigger] flatten(*body)[i]),
        _ => false,
    }
}

pub open spec fn is_yield(n: Node) -> bool {
    is_other(n, "YieldNode".spec_bytes())
}

/// The offense of an `around` call whose block never runs its example:
/// at the call when the block takes no named parameter, else at the
/// parameter.
pub open spec fn spec_check_node(src: Seq<u8>, n: Node) -> Seq<Offense> {
    match n {
        Node::Call { name, block: Some(b), loc, .. } => if name@ == "around".spec_bytes() && *b is Block
            && !body_has(*b, |x: Node| is_yield(x)) {
            match param_name(*b) {
                None => if body_has(*b, |x: Node| uses_numbered(x)) {
                    Seq::empty()
                } else {
                    seq![offense(spec_line_of(src, loc.start as int), spec_column_of(src, loc.start as int), "Test object should be passed to around block.".spec_bytes())]
                },
                Some(p) => if body_has(*b, |x: Node| uses_param(x, p)) {
                    Seq::empty()
                } else {
                    let at = first_required(*b)->0.spec_loc().start as int;
                    let shown = if vstd::utf8::valid_utf8(p) { p } else { "example".spec_bytes() };
                    seq![offense(spec_line_of(src, at), spec_column_of(src, at), "You should call `".spec_bytes() + shown + ".call` or `".spec_bytes() + shown + ".run`.".spec_bytes())]
                },
            }
        } else {
            Seq::empty()
        },
        _ => Seq::empty(),
    }
}

fn is_param_ref_exec(n: &Node, name: &[u8]) -> (r: bool)
    ensures
        r == is_param_ref(*n, name@),
{
    match n {
        Node::Named { kind: NamedKind::LocalVariableRead, name: nm, .. } => bytes_eq(nm.as_slice(), name),
        Node::Call { receiver: None, arguments: None, name: nm, .. } => bytes_eq(nm.as_slice(), name),
        _ => false,
    }
}

fn any_ref_exec(args: &[Node], name: &[u8]) -> (r: bool)
    ensures
        r == any_ref(args@, name@),
{
    let mut i: usize = 0;
    while i < args.len()
        invariant
            i <= args@.len(),
            forall|j: int| 0 <= j < i ==> !is_param_ref(#[trigger] args@[j], name@),
        decreases args@.len() - i,
    {
        if is_param_ref_exec(&args[i], name) {
            return true;
        }
        i = i + 1;
    }
    false
}

fn uses_param_exec(n: &Node, name: &[u8]) -> (r: bool)
    ensures
        r == uses_param(*n, name@),
{
    match n {
        Node::Call { name: m, receiver, block, .. } => {
            let run = (eq_str(m.as_slice(), "run") || eq_str(m.as_slice(), "call")) && match receiver {
                Some(r) => is_param_ref_exec(r, name),
                None => false,
            };
            let blk = match block {
                Some(b) => match &**b {
                    Node::BlockArgument { expression: Some(e), .. } => is_param_ref_exec(e, name),
                    _ => false,
                },
                None => false,
            };
            run || any_ref_exec(call_args_exec(n), name) || blk
        },
        Node::Other { children: cs, .. } => {
            if is_other_exec(n, "YieldNode") && cs.len() > 0 {
                match &cs[0] {
                    Node::Arguments { arguments, .. } => any_ref_exec(arguments.as_slice(), name),
                    _ => false,
                }
            } else {
                false
            }
        },
        _ => {
            assert(yield_args(*n) =~= Seq::<Node>::empty());
            false
        },
    }
}

fn is_numbered_read_exec(n: &Node) -> (r: bool)
    ensures
        r == is_numbered_read(*n),
{
    match n {
        Node::Named { kind: NamedKind::LocalVariableRead, name, .. } => eq_str(name.as_slice(), "_1"),
        _ => false,
    }
}

fn uses_numbered_exec(n: &Node) -> (r: bool)
    ensures
        r == uses_numbered(*n),
{
    match n {
        Node::Call { name: m, receiver, block, .. } => {
            let run = (eq_str(m.as_slice(), "run") || eq_str(m.as_slice(), "call")) && match receiver {
                Some(r) => is_numbered_read_exec(r) || match &**r {
                    Node::Call { name: rn, receiver: None, .. } => eq_str(rn.as_slice(), "_1"),
                    _ => false,
                },
                None => false,
            };
            let args = call_args_exec(n);
            let mut any = false;
            let mut i: usize = 0;
            while i < args.len()
                invariant
                    i <= args@.len(),
                    any == exists|j: int| 0 <= j < i && is_numbered_read(#[trigger] args@[j]),
                decreases args@.len() - i,
            {
                if is_numbered_read_exec(&args[i]) {
                    any = true;
                }
                i = i + 1;
            }
            let blk = match block {
                Some(b) => match &**b {
                    Node::BlockArgument { expression: Some(e), .. } => is_numbered_read_exec(e),
                    _ => false,
                },
                None => false,
            };
            run || any || blk
        },
        _ => false,
    }
}

/// What a search of the body looks for.
pub enum Search<'a> {
    Yield,
    Numbered,
    Param(&'a [u8]),
}

pub open spec fn search_pred(s: Search) -> spec_fn(Node) -> bool {
    match s {
        Search::Yield => |x: Node| is_yield(x),
        Search::Numbered => |x: Node| uses_numbered(x),
        Search::Param(p) => |x: Node| uses_param(x, p@),
    }
}

fn body_has_exec(b: &Node, s: &Search) -> (r: bool)
    ensures
        r == body_has(*b, search_pred(*s)),
{
    let body = match b {
        Node::Block { body: Some(body), .. } => &**body,
        _ => {
            return false;
        },
    };
    let ghost p = search_pred(*s);
    let nodes = preorder(body);
    let ghost ns = nodes@.map_values(|x: &Node| *x);
    let mut i: usize = 0;
    while i < nodes.len()
        invariant
            i <= nodes@.len(),
            ns == nodes@.map_values(|x: &Node| *x),
            ns == flatten(*body),
            p == search_pred(*s),
            *b matches Node::Block { body: Some(bd), .. } && *bd == *body,
            forall|j: int| 0 <= j < i ==> !p(#[trigger] ns[j]),
        decreases nodes@.len() - i,
    {
        assert(ns[i as int] == *nodes[i as int]);
        let hit = match s {
            Search::Yield => is_other_exec(nodes[i], "YieldNode"),
            Search::Numbered => uses_numbered_exec(nodes[i]),
            Search::Param(name) => uses_param_exec(nodes[i], name),
        };
        assert(hit == p(ns[i as int]));
        if hit {
            assert(p(flatten(*body)[i as int]));
            return true;
        }
        i = i + 1;
    }
    false
}

impl AroundBlock {
    pub fn name(&self) -> &'static str {
        "RSpec/AroundBlock"
    }

    /// The offense at `node`, an `around` call.
    pub fn check_node(&self, source: &SourceFile, node: &Node) -> (r: Vec<Diagnostic>)
        ensures
            offenses(r@) == spec_check_node(source.text(), *node),
    {
        let mut out: Vec<Diagnostic> = Vec::new();
        match node {
            Node::Call { name, block: Some(b), loc, .. } => {
                if !eq_str(name.as_slice(), "around") {
                    return out;
                }
                match &**b {
                    Node::Block { .. } => {},
                    _ => {
                        return out;
                    },
                }
                assert(search_pred(Search::Yield) == (|x: Node| is_yield(x)));
                if body_has_exec(b, &Search::Yield) {
                    return out;
                }
                let first: Option<&Node> = match &**b {
                    Node::Block { parameters: Some(p), .. } => match &**p {
                        Node::BlockParameters { parameters: Some(pp), .. } => match &**pp {
                            Node::Parameters { requireds, .. } => if requireds.len() > 0 {
                                Some(&requireds[0])
                            } else {
                                None
                            },
                            _ => None,
                        },
                        _ => None,
                    },
                    _ => None,
                };
                assert(match first {
                    Some(f) => first_required(**b) == Some(*f),
                    None => first_required(**b) is None,
                });
                let pname: Option<&Vec<u8>> = match first {
                    Some(Node::Named { kind: NamedKind::RequiredParameter, name, .. }) => Some(name),
                    _ => None,
                };
                match pname {
                    None => {
                        assert(search_pred(Search::Numbered) == (|x: Node| uses_numbered(x)));
                        if !body_has_exec(b, &Search::Numbered) {
                            let (line, column) = source.position(loc.start);
                            out.push(diagnostic(line, column, str_bytes("Test object should be passed to around block.")));
                        }
                    },
                    Some(p) => {
                        let s = Search::Param(p.as_slice());
                        assert(search_pred(s) == (|x: Node| uses_param(x, p@)));
                        if !body_has_exec(b, &s) {
                            let at = match first {
                                Some(f) => f.loc().start,
                                None => 0,
                            };
                            let (line, column) = source.position(at);
                            let mut m: Vec<u8> = Vec::new();
                            let valid = utf8_is_valid(p.as_slice());
                            push_str(&mut m, "You should call `");
                            if valid {
                                push_bytes(&mut m, p.as_slice());
                            } else {
                                push_str(&mut m, "example");
                            }
                            push_str(&mut m, ".call` or `");
                            if valid {
                                push_bytes(&mut m, p.as_slice());
                            } else {
                                push_str(&mut m, "example");
                            }
                            push_str(&mut m, ".run`.");
                            out.push(diagnostic(line, column, m));
                        }
                    },
                }
            },
            _ => {},
        }
        assert(offenses(out@) =~= spec_check_node(source.text(), *node));
        out
    }
}

} // verus!
