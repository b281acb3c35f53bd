//! Style/ItAssignment: a local variable or parameter named `it`.
use vstd::prelude::*;
use vstd::string::StringSliceAdditionalSpecFns;
use crate::ast::{NamedKind, Node};
use crate::bytes::eq_str;
use crate::diagnostic::{diagnostic, offense, offenses, str_bytes, Diagnostic, Offense};
use crate::source::{spec_column_of, spec_line_of, SourceFile};

verus! {

/// The cop.
pub struct ItAssignment;

pub open spec fn it_msg() -> Seq<u8> {
    "Avoid assigning to local variable `it`, since `it` will be the default block parameter in Ruby 3.4+. Consider using a different variable name.".spec_bytes()
}

/// A local variable assignment or a required or optional parameter.
pub open spec fn is_binding(kind: NamedKind) -> bool {
    kind == NamedKind::LocalVariableWrite || kind == NamedKind::RequiredParameter || kind
        == NamedKind::OptionalParameter
}

/// The offense at `n`: a binding of the name `it`.
pub open spec fn spec_check_node(src: Seq<u8>, n: Node) -> Seq<Offense> {
    match n {
        Node::Named { kind, name, loc, .. } => if is_binding(kind) && name@ == "it".spec_bytes() {
            seq![offense(spec_line_of(src, loc.start as int), spec_column_of(src, loc.start as int), it_msg())]
        } else {
            Seq::empty()
        },
        _ => Seq::empty(),
    }
}

impl ItAssignment {
    pub fn name(&self) -> &'static str {
        "Style/ItAssignment"
    }

    /// The offense at `node`.
    pub fn check_node(&self, source: &SourceFile, node: &Node) -> (r: Vec<Diagnostic>)
        ensures
            offenses(r@) == spec_check_node(source.text(), *node),
    {
        let mut out: Vec<Diagnostic> = Vec::new();
        match node {
            Node::Named { kind, name, loc, .. } => {
                let binding = *kind == NamedKind::LocalVariableWrite || *kind == NamedKind::RequiredParameter
                    || *kind == NamedKind::OptionalParameter;
                if binding && eq_str(name.as_slice(), "it") {
                    let (line, column) = source.position(loc.start);
                    out.push(diagnostic(line, column, str_bytes("Avoid assigning to local variable `it`, since `it` will be the default block parameter in Ruby 3.4+. Consider using a different variable name.")));
                }
            },
            _ => {},
        }
        assert(offenses(out@) =~= spec_check_node(source.text(), *node));
        out
    }
}

} // verus!
