//! Security/Eval: `eval` on code that is not a plain literal.
//!
//! Reported for `eval(...)`, `binding.eval(...)` and `Kernel.eval(...)`
//! unless the first argument is a string, or an interpolated string whose
//! every interpolation is one literal (numbers, strings, symbols, `nil`,
//! booleans, regexps, and arrays and hashes of those).
use vstd::prelude::*;
use vstd::string::StringSliceAdditionalSpecFns;
use crate::ast::{call_args_exec, children, children_of, is_other, is_other_exec, lemma_children_decrease, NamedKind, Node};
use crate::bytes::{eq_str, src_range, src_range_exec};
use crate::diagnostic::{diagnostic, offense, offenses, str_bytes, Diagnostic, Offense};
use crate::source::{spec_column_of, spec_line_of, SourceFile};

verus! {

/// The cop.
pub struct Eval;

/// A literal that needs no further look: numbers, strings, symbols,
/// `nil`, `true`, `false` and regular expressions.
pub open spec fn is_atomic_literal(n: Node) -> bool {
    ||| n is Integer
    ||| n is Float
    ||| n is Str
    ||| n is Symbol
    ||| n is RegularExpression
    ||| is_other(n, "NilNode".spec_bytes())
    ||| is_other(n, "TrueNode".spec_bytes())
    ||| is_other(n, "FalseNode".spec_bytes())
    ||| is_other(n, "RationalNode".spec_bytes())
    ||| is_other(n, "ImaginaryNode".spec_bytes())
}

/// A literal all of whose parts are literals.
pub open spec fn is_recursive_literal(n: Node) -> bool
    decreases n, children(n).len() + 1,
{
    if is_atomic_literal(n) {
        true
    } else if n is Array || n is Hash || n is KeywordHash || n is InterpolatedStr {
        parts_literal(n, children(n).len() as int)
    } else {
        false
    }
}

/// The first `k` children of the collection or string `n` are literal
/// parts of it.
pub open spec fn parts_literal(n: Node, k: int) -> bool
    decreases n, k,
{
    if k <= 0 || k > children(n).len() {
        true
    } else {
        proof {
            lemma_children_decrease(n);
        }
        parts_literal(n, k - 1) && part_literal(n, children(n)[k - 1])
    }
}

/// `c`, a child of `n`, is a literal part: an element of an array, a
/// `key => value` pair of a hash, or a string piece or one-literal
/// interpolation of an interpolated string.
pub open spec fn part_literal(n: Node, c: Node) -> bool
    decreases c, children(c).len() + 2,
{
    if n is Array {
        is_recursive_literal(c)
    } else if n is Hash || n is KeywordHash {
        match c {
            Node::Assoc { key, value, .. } => is_recursive_literal(*key) && is_recursive_literal(*value),
            _ => false,
        }
    } else if c is Str {
        true
    } else if is_other(c, "EmbeddedStatementsNode".spec_bytes()) && children(c).len() > 0 {
        proof {
            lemma_children_decrease(c);
        }
        let s = children(c)[0];
        match s {
            Node::Statements { body, .. } => if body@.len() == 1 {
                proof {
                    lemma_children_decrease(s);
                    assert(decreases_to!(s => body@[0]));
                }
                is_recursive_literal(body@[0])
            } else {
                false
            },
            _ => false,
        }
    } else {
        false
    }
}

proof fn lemma_part_fails(n: Node, k: int, i: int)
    requires
        0 <= i < k <= children(n).len(),
        !part_literal(n, children(n)[i]),
    ensures
        !parts_literal(n, k),
    decreases k,
{
    if i < k - 1 {
        lemma_part_fails(n, k - 1, i);
    }
}

/// `Kernel` or `::Kernel`.
pub open spec fn is_kernel(src: Seq<u8>, r: Node) -> bool {
    match r {
        Node::Named { kind: NamedKind::ConstantRead, name, .. } => name@ == "Kernel".spec_bytes(),
        Node::ConstantPath { loc, .. } => src_range(src, loc.start as int, loc.end as int) == "Kernel".spec_bytes()
            || src_range(src, loc.start as int, loc.end as int) == "::Kernel".spec_bytes(),
        _ => false,
    }
}

/// The receivers `eval` is reported on: none, `binding`, `Kernel`.
pub open spec fn allowed_receiver(src: Seq<u8>, recv: Option<Box<Node>>) -> bool {
    match recv {
        None => true,
        Some(r) => is_kernel(src, *r) || (*r matches Node::Call { name, receiver: None, .. } && name@ == "binding".spec_bytes()),
    }
}

/// Calls the check is defined for: an `eval` call has a message location,
/// and a constant-path receiver lies inside the text.
pub open spec fn well_formed_eval(src: Seq<u8>, n: Node) -> bool {
    match n {
        Node::Call { name, message_loc, receiver, .. } => name@ == "eval".spec_bytes() ==> (message_loc is Some && match receiver {
            Some(r) => match *r {
                Node::ConstantPath { loc, .. } => loc.start <= loc.end <= src.len(),
                _ => true,
            },
            None => true,
        }),
        _ => true,
    }
}

pub open spec fn spec_check_node(src: Seq<u8>, n: Node) -> Seq<Offense> {
    match n {
        Node::Call { name, receiver, message_loc: Some(m), .. } => {
            let args = n.call_args();
            if name@ == "eval".spec_bytes() && allowed_receiver(src, receiver) && args.len() > 0 && !(args[0] is Str)
                && !(args[0] is InterpolatedStr && is_recursive_literal(args[0])) {
                seq![offense(spec_line_of(src, m.start as int), spec_column_of(src, m.start as int), "The use of `eval` is a serious security risk.".spec_bytes())]
            } else {
                Seq::empty()
            }
        },
        _ => Seq::empty(),
    }
}

fn is_atomic_literal_exec(n: &Node) -> (r: bool)
    ensures
        r == is_atomic_literal(*n),
{
    match n {
        Node::Integer { .. } => true,
        Node::Float { .. } => true,
        Node::Str { .. } => true,
        Node::Symbol { .. } => true,
        Node::RegularExpression { .. } => true,
        _ => is_other_exec(n, "NilNode") || is_other_exec(n, "TrueNode") || is_other_exec(n, "FalseNode")
            || is_other_exec(n, "RationalNode") || is_other_exec(n, "ImaginaryNode"),
    }
}

/// Whether `n` is a literal all of whose parts are literals.
pub fn is_recursive_literal_exec(n: &Node) -> (r: bool)
    ensures
        r == is_recursive_literal(*n),
    decreases n, 0int,
{
    if is_atomic_literal_exec(n) {
        return true;
    }
    let coll = match n {
        Node::Array { .. } => true,
        Node::Hash { .. } => true,
        Node::KeywordHash { .. } => true,
        Node::InterpolatedStr { .. } => true,
        _ => false,
    };
    if !coll {
        return false;
    }
    let kids = children_of(n);
    let ghost cs = kids@.map_values(|x: &Node| *x);
    let mut i: usize = 0;
    while i < kids.len()
        invariant
            i <= kids@.len(),
            cs == kids@.map_values(|x: &Node| *x),
            cs == children(*n),
            is_recursive_literal(*n) == parts_literal(*n, cs.len() as int),
            parts_literal(*n, i as int),
        decreases kids@.len() - i,
    {
        proof {
            lemma_children_decrease(*n);
        }
        assert(cs[i as int] == *kids[i as int]);
        if !part_literal_exec(n, kids[i]) {
            proof {
                lemma_part_fails(*n, cs.len() as int, i as int);
            }
            return false;
        }
        i = i + 1;
    }
    true
}

fn part_literal_exec(n: &Node, c: &Node) -> (r: bool)
    ensures
        r == part_literal(*n, *c),
    decreases c, 1int,
{
    match n {
        Node::Array { .. } => {
            return is_recursive_literal_exec(c);
        },
        Node::Hash { .. } | Node::KeywordHash { .. } => {
            return match c {
                Node::Assoc { key, value, .. } => is_recursive_literal_exec(key) && is_recursive_literal_exec(value),
                _ => false,
            };
        },
        _ => {},
    }
    match c {
        Node::Str { .. } => true,
        Node::Other { children: cs, .. } => {
            assert(children(*c) == cs@);
            if is_other_exec(c, "EmbeddedStatementsNode") && cs.len() > 0 {
                proof {
                    lemma_children_decrease(*c);
                }
                match &cs[0] {
                    Node::Statements { body, .. } => if body.len() == 1 {
                        proof {
                            lemma_children_decrease(cs@[0]);
                            assert(decreases_to!(cs@[0] => body@[0]));
                        }
                        is_recursive_literal_exec(&body[0])
                    } else {
                        false
                    },
                    _ => false,
                }
            } else {
                false
            }
        },
        _ => false,
    }
}

impl Eval {
    pub fn name(&self) -> &'static str {
        "Security/Eval"
    }

    /// The offense at `node`, an `eval` call.
    pub fn check_node(&self, source: &SourceFile, node: &Node) -> (r: Vec<Diagnostic>)
        requires
            well_formed_eval(source.text(), *node),
        ensures
            offenses(r@) == spec_check_node(source.text(), *node),
    {
        let mut out: Vec<Diagnostic> = Vec::new();
        let src = source.as_bytes();
        match node {
            Node::Call { name, receiver, message_loc: Some(m), .. } => {
                if !eq_str(name.as_slice(), "eval") {
                    return out;
                }
                let allowed = match receiver {
                    None => true,
                    Some(r) => match &**r {
                        Node::Named { kind: NamedKind::ConstantRead, name: c, .. } => eq_str(c.as_slice(), "Kernel"),
                        Node::ConstantPath { loc, .. } => {
                            let t = src_range_exec(src, loc.start, loc.end);
                            eq_str(t, "Kernel") || eq_str(t, "::Kernel")
                        },
                        Node::Call { name: b, receiver: None, .. } => eq_str(b.as_slice(), "binding"),
                        _ => false,
                    },
                };
                if !allowed {
                    return out;
                }
                let args = call_args_exec(node);
                if args.len() == 0 {
                    return out;
                }
                match &args[0] {
                    Node::Str { .. } => {
                        return out;
                    },
                    Node::InterpolatedStr { .. } => if is_recursive_literal_exec(&args[0]) {
                        return out;
                    },
                    _ => {},
                }
                let (line, column) = source.position(m.start);
                out.push(diagnostic(line, column, str_bytes("The use of `eval` is a serious security risk.")));
            },
            _ => {},
        }
        assert(offenses(out@) =~= spec_check_node(source.text(), *node));
        out
    }
}

} // verus!
