//! Style/ClassVars: class variables, assigned directly or through
//! `class_variable_set`.
use vstd::prelude::*;
use vstd::string::StringSliceAdditionalSpecFns;
use crate::ast::{call_args_exec, NamedKind, Node};
use crate::bytes::{eq_str, lossy_utf8, src_range, src_range_exec, utf8_lossy};
use crate::diagnostic::{diagnostic, offense, offenses, push_bytes, push_str, Diagnostic, Offense};
use crate::source::{spec_column_of, spec_line_of, SourceFile};

verus! {

/// The cop.
pub struct ClassVars;

pub open spec fn class_var_message(name: Seq<u8>) -> Seq<u8> {
    "Replace class var ".spec_bytes() + name + " with a class instance var.".spec_bytes()
}

/// An assignment to a class variable: plain, `&&=`, `||=` or an operator.
pub open spec fn is_class_var_assignment(kind: NamedKind) -> bool {
    ||| kind == NamedKind::ClassVariableWrite
    ||| kind == NamedKind::ClassVariableAndWrite
    ||| kind == NamedKind::ClassVariableOrWrite
    ||| kind == NamedKind::ClassVariableOperatorWrite
}

/// The offense at `n`: at the name of a class variable assignment, or at the
/// first argument of `class_variable_set`.
pub open spec fn spec_check_node(src: Seq<u8>, n: Node) -> Seq<Offense> {
    match n {
        Node::Named { kind, name, name_loc, .. } => if is_class_var_assignment(kind) {
            seq![offense(spec_line_of(src, name_loc.start as int), spec_column_of(src, name_loc.start as int), class_var_message(utf8_lossy(name@)))]
        } else {
            Seq::empty()
        },
        Node::Call { name, arguments: Some(_), .. } => if name@ == "class_variable_set".spec_bytes() && n.call_args().len() > 0 {
            let a = n.call_args()[0];
            let start = a.spec_loc().start as int;
            seq![offense(spec_line_of(src, start), spec_column_of(src, start),
                class_var_message(utf8_lossy(src_range(src, start, a.spec_loc().end as int))))]
        } else {
            Seq::empty()
        },
        _ => Seq::empty(),
    }
}

fn class_var_message_exec(name: &[u8]) -> (r: Vec<u8>)
    ensures
        r@ == class_var_message(utf8_lossy(name@)),
{
    let mut m: Vec<u8> = Vec::new();
    push_str(&mut m, "Replace class var ");
    let t = lossy_utf8(name);
    push_bytes(&mut m, t.as_slice());
    push_str(&mut m, " with a class instance var.");
    m
}

impl ClassVars {
    pub fn name(&self) -> &'static str {
        "Style/ClassVars"
    }

    /// The offense at `node`.
    pub fn check_node(&self, source: &SourceFile, node: &Node) -> (r: Vec<Diagnostic>)
        ensures
            offenses(r@) == spec_check_node(source.text(), *node),
    {
        let mut out: Vec<Diagnostic> = Vec::new();
        match node {
            Node::Named { kind, name, name_loc, .. } => {
                if *kind == NamedKind::ClassVariableWrite || *kind == NamedKind::ClassVariableAndWrite
                    || *kind == NamedKind::ClassVariableOrWrite || *kind == NamedKind::ClassVariableOperatorWrite {
                    let (line, column) = source.position(name_loc.start);
                    out.push(diagnostic(line, column, class_var_message_exec(name.as_slice())));
                }
            },
            Node::Call { name, arguments: Some(_), .. } => {
                if eq_str(name.as_slice(), "class_variable_set") {
                    let args = call_args_exec(node);
                    if args.len() > 0 {
                        let l = args[0].loc();
                        let (line, column) = source.position(l.start);
                        out.push(diagnostic(line, column, class_var_message_exec(src_range_exec(source.as_bytes(), l.start, l.end))));
                    }
                }
            },
            _ => {},
        }
        assert(offenses(out@) =~= spec_check_node(source.text(), *node));
        out
    }
}

} // verus!
