//! RSpec/SingleArgumentMessageChain: `receive_message_chain`/`stub_chain`
//! with a single link, which `receive`/`stub` says directly.
use vstd::prelude::*;
use vstd::string::StringSliceAdditionalSpecFns;
use crate::ast::{call_args_exec, Node};
use crate::bytes::{contains_byte, eq_str};
use crate::diagnostic::{diagnostic, offense, offenses, push_bytes, push_str, Diagnostic, Offense};
use crate::source::{spec_column_of, spec_line_of, SourceFile};

verus! {

/// The cop.
pub struct SingleArgumentMessageChain;

/// The single-message method that replaces a chain method.
pub open spec fn chain_replacement(name: Seq<u8>) -> Option<Seq<u8>> {
    if name == "receive_message_chain".spec_bytes() {
        Some("receive".spec_bytes())
    } else if name == "stub_chain".spec_bytes() {
        Some("stub".spec_bytes())
    } else {
        None
    }
}

/// A chain of one message: a symbol, a string without `.`, or a
/// one-element array.
pub open spec fn is_single_link(a: Node) -> bool {
    match a {
        Node::Symbol { .. } => true,
        Node::Str { unescaped, .. } => !unescaped@.contains(46u8),
        Node::Array { elements, .. } => elements@.len() == 1,
        _ => false,
    }
}

pub open spec fn spec_check_node(src: Seq<u8>, n: Node) -> Seq<Offense> {
    match n {
        Node::Call { name, arguments: Some(_), message_loc, loc, .. } => match chain_replacement(name@) {
            Some(rep) => if n.call_args().len() == 1 && is_single_link(n.call_args()[0]) {
                let at = match message_loc {
                    Some(m) => m.start as int,
                    None => loc.start as int,
                };
                seq![offense(spec_line_of(src, at), spec_column_of(src, at),
                    "Use `".spec_bytes() + rep + "` instead of calling `".spec_bytes() + name@ + "` with a single argument.".spec_bytes())]
            } else {
                Seq::empty()
            },
            None => Seq::empty(),
        },
        _ => Seq::empty(),
    }
}

impl SingleArgumentMessageChain {
    pub fn name(&self) -> &'static str {
        "RSpec/SingleArgumentMessageChain"
    }

    /// The offense at `node`.
    pub fn check_node(&self, source: &SourceFile, node: &Node) -> (r: Vec<Diagnostic>)
        ensures
            offenses(r@) == spec_check_node(source.text(), *node),
    {
        let mut out: Vec<Diagnostic> = Vec::new();
        match node {
            Node::Call { name, arguments: Some(_), message_loc, loc, .. } => {
                let rep: &str = if eq_str(name.as_slice(), "receive_message_chain") {
                    "receive"
                } else if eq_str(name.as_slice(), "stub_chain") {
                    "stub"
                } else {
                    return out;
                };
                let args = call_args_exec(node);
                if args.len() == 1 {
                    let single = match &args[0] {
                        Node::Symbol { .. } => true,
                        Node::Str { unescaped, .. } => !contains_byte(unescaped.as_slice(), 46u8),
                        Node::Array { elements, .. } => elements.len() == 1,
                        _ => false,
                    };
                    if single {
                        let at = match message_loc {
                            Some(m) => m.start,
                            None => loc.start,
                        };
                        let (line, column) = source.position(at);
                        let mut m: Vec<u8> = Vec::new();
                        push_str(&mut m, "Use `");
                        push_str(&mut m, rep);
                        push_str(&mut m, "` instead of calling `");
                        push_bytes(&mut m, name.as_slice());
                        push_str(&mut m, "` with a single argument.");
                        out.push(diagnostic(line, column, m));
                    }
                }
            },
            _ => {},
        }
        assert(offenses(out@) =~= spec_check_node(source.text(), *node));
        out
    }
}

} // verus!
