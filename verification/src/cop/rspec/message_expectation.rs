//! RSpec/MessageExpectation: `expect(...).to receive(...)` where the style
//! asks for `allow`, or `allow(...).to receive(...)` where it asks for
//! `expect`.
use vstd::prelude::*;
use vstd::string::StringSliceAdditionalSpecFns;
use crate::ast::{call_args_exec, Node};
use crate::bytes::eq_str;
use crate::diagnostic::{diagnostic, offense, offenses, str_bytes, Diagnostic, Offense};
use crate::source::{spec_column_of, spec_line_of, SourceFile};

verus! {

/// The cop.
pub struct MessageExpectation;

/// The configured `EnforcedStyle`: `expect`, or `allow` (the default, and
/// what any other value means).
#[derive(Clone, Copy, PartialEq, Eq, Structural, Debug)]
pub enum MessageExpectationStyle {
    Allow,
    Expect,
}

/// A chain of calls that reaches a receiverless `receive`.
pub open spec fn chain_includes_receive(n: Node) -> bool
    decreases n,
{
    match n {
        Node::Call { name, receiver, .. } => if name@ == "receive".spec_bytes() && receiver is None {
            true
        } else {
            match receiver {
                Some(r) => chain_includes_receive(*r),
                None => false,
            }
        },
        _ => false,
    }
}

/// The offense at the `expect`/`allow` call of `x(...).to receive(...)`.
pub open spec fn spec_check_node(src: Seq<u8>, n: Node, style: MessageExpectationStyle) -> Seq<Offense> {
    match n {
        Node::Call { name, receiver: Some(rv), .. } => if name@ == "to".spec_bytes() && n.call_args().len() > 0
            && n.call_args()[0] is Call && chain_includes_receive(n.call_args()[0]) {
            match *rv {
                Node::Call { name: rname, receiver: None, loc, .. } => {
                    let (wanted, msg) = match style {
                        MessageExpectationStyle::Expect => ("allow".spec_bytes(), "Prefer `expect` for setting message expectations.".spec_bytes()),
                        MessageExpectationStyle::Allow => ("expect".spec_bytes(), "Prefer `allow` for setting message expectations.".spec_bytes()),
                    };
                    if rname@ == wanted {
                        seq![offense(spec_line_of(src, loc.start as int), spec_column_of(src, loc.start as int), msg)]
                    } else {
                        Seq::empty()
                    }
                },
                _ => Seq::empty(),
            }
        } else {
            Seq::empty()
        },
        _ => Seq::empty(),
    }
}

fn chain_includes_receive_exec(n: &Node) -> (r: bool)
    ensures
        r == chain_includes_receive(*n),
    decreases n,
{
    match n {
        Node::Call { name, receiver, .. } => if eq_str(name.as_slice(), "receive") && receiver.is_none() {
            true
        } else {
            match receiver {
                Some(r) => chain_includes_receive_exec(r),
                None => false,
            }
        },
        _ => false,
    }
}

impl MessageExpectation {
    pub fn name(&self) -> &'static str {
        "RSpec/MessageExpectation"
    }

    /// The offense at `node` under the configured style.
    pub fn check_node(&self, source: &SourceFile, node: &Node, style: MessageExpectationStyle) -> (r: Vec<Diagnostic>)
        ensures
            offenses(r@) == spec_check_node(source.text(), *node, style),
    {
        let mut out: Vec<Diagnostic> = Vec::new();
        match node {
            Node::Call { name, receiver: Some(rv), .. } => {
                if !eq_str(name.as_slice(), "to") {
                    return out;
                }
                let args = call_args_exec(node);
                if args.len() == 0 {
                    return out;
                }
                match &args[0] {
                    Node::Call { .. } => {},
                    _ => {
                        return out;
                    },
                }
                if !chain_includes_receive_exec(&args[0]) {
                    return out;
                }
                match &**rv {
                    Node::Call { name: rname, receiver: None, loc, .. } => {
                        let hit = match style {
                            MessageExpectationStyle::Expect => eq_str(rname.as_slice(), "allow"),
                            MessageExpectationStyle::Allow => eq_str(rname.as_slice(), "expect"),
                        };
                        if hit {
                            let (line, column) = source.position(loc.start);
                            let m = match style {
                                MessageExpectationStyle::Expect => str_bytes("Prefer `expect` for setting message expectations."),
                                MessageExpectationStyle::Allow => str_bytes("Prefer `allow` for setting message expectations."),
                            };
                            out.push(diagnostic(line, column, m));
                        }
                    },
                    _ => {},
                }
            },
            _ => {},
        }
        assert(offenses(out@) =~= spec_check_node(source.text(), *node, style));
        out
    }
}

} // verus!
