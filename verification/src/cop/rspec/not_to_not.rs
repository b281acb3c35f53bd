//! RSpec/NotToNot: one of `not_to` and `to_not`, by the configured style.
use vstd::prelude::*;
use vstd::string::StringSliceAdditionalSpecFns;
use crate::ast::Node;
use crate::bytes::eq_str;
use crate::diagnostic::{diagnostic, offense, offenses, push_str, Diagnostic, Offense};
use crate::source::{spec_column_of, spec_line_of, SourceFile};

verus! {

/// The cop.
pub struct NotToNot;

/// The `EnforcedStyle` option.
#[derive(Clone, Copy, PartialEq, Eq, Structural, Debug)]
pub enum NotToNotStyle {
    /// `not_to` is preferred.
    NotTo,
    /// `to_not` is preferred (any other configured value too).
    ToNot,
}

/// The offense at `n`: the flagged form called with a receiver.
pub open spec fn spec_check_node(src: Seq<u8>, n: Node, style: NotToNotStyle) -> Seq<Offense> {
    let (preferred, flagged) = if style == NotToNotStyle::NotTo {
        ("not_to".spec_bytes(), "to_not".spec_bytes())
    } else {
        ("to_not".spec_bytes(), "not_to".spec_bytes())
    };
    match n {
        Node::Call { name, receiver: Some(_), message_loc, loc, .. } => if name@ == flagged {
            let at = match message_loc {
                Some(m) => m.start as int,
                None => loc.start as int,
            };
            seq![offense(spec_line_of(src, at), spec_column_of(src, at), "Prefer `".spec_bytes() + preferred + "` over `".spec_bytes() + flagged + "`.".spec_bytes())]
        } else {
            Seq::empty()
        },
        _ => Seq::empty(),
    }
}

impl NotToNot {
    pub fn name(&self) -> &'static str {
        "RSpec/NotToNot"
    }

    /// The offense at `node`.
    pub fn check_node(&self, source: &SourceFile, node: &Node, style: NotToNotStyle) -> (r: Vec<Diagnostic>)
        ensures
            offenses(r@) == spec_check_node(source.text(), *node, style),
    {
        let mut out: Vec<Diagnostic> = Vec::new();
        let flagged: &str = if style == NotToNotStyle::NotTo { "to_not" } else { "not_to" };
        match node {
            Node::Call { name, receiver: Some(_), message_loc, loc, .. } => {
                if eq_str(name.as_slice(), flagged) {
                    let at = match message_loc {
                        Some(m) => m.start,
                        None => loc.start,
                    };
                    let (line, column) = source.position(at);
                    let preferred: &str = if style == NotToNotStyle::NotTo { "not_to" } else { "to_not" };
                    let mut m: Vec<u8> = Vec::new();
                    push_str(&mut m, "Prefer `");
                    push_str(&mut m, preferred);
                    push_str(&mut m, "` over `");
                    push_str(&mut m, flagged);
                    push_str(&mut m, "`.");
                    out.push(diagnostic(line, column, m));
                }
            },
            _ => {},
        }
        assert(offenses(out@) =~= spec_check_node(source.text(), *node, style));
        out
    }
}

} // verus!
