//! Style/DateTime: `DateTime` and `#to_datetime`, where `Time` will do.
use vstd::prelude::*;
use vstd::string::StringSliceAdditionalSpecFns;
use crate::ast::{call_args_exec, NamedKind, Node};
use crate::bytes::eq_str;
use crate::diagnostic::{diagnostic, offense, offenses, str_bytes, Diagnostic, Offense};
use crate::source::{spec_column_of, spec_line_of, SourceFile};

verus! {

/// The cop.
pub struct DateTime;

/// `DateTime` or `::DateTime`.
pub open spec fn is_datetime_const(n: Node) -> bool {
    match n {
        Node::Named { kind: NamedKind::ConstantRead, name, .. } => name@ == "DateTime".spec_bytes(),
        Node::ConstantPath { parent: None, name, .. } => name@ == "DateTime".spec_bytes(),
        _ => false,
    }
}

/// `Date` or `::Date`.
pub open spec fn is_date_const(n: Node) -> bool {
    match n {
        Node::Named { kind: NamedKind::ConstantRead, name, .. } => name@ == "Date".spec_bytes(),
        Node::ConstantPath { parent: None, name, .. } => name@ == "Date".spec_bytes(),
        _ => false,
    }
}

/// A call with two or more arguments whose last one is a `Date::...`
/// calendar constant.
pub open spec fn is_historic_date(c: Node) -> bool {
    c->Call_arguments is Some && c.call_args().len() >= 2 && match c.call_args().last() {
        Node::ConstantPath { parent: Some(p), .. } => is_date_const(*p),
        _ => false,
    }
}

/// The offense at `n`; `allow_coercion` allows `#to_datetime`.
pub open spec fn spec_check_node(src: Seq<u8>, n: Node, allow_coercion: bool) -> Seq<Offense> {
    let start = n.spec_loc().start as int;
    match n {
        Node::Call { name, receiver, .. } => if name@ == "to_datetime".spec_bytes() {
            if allow_coercion {
                Seq::empty()
            } else {
                seq![offense(spec_line_of(src, start), spec_column_of(src, start), "Do not use `#to_datetime`.".spec_bytes())]
            }
        } else {
            match receiver {
                Some(r) => if is_datetime_const(*r) && !is_historic_date(n) {
                    seq![offense(spec_line_of(src, start), spec_column_of(src, start), "Prefer `Time` over `DateTime`.".spec_bytes())]
                } else {
                    Seq::empty()
                },
                None => Seq::empty(),
            }
        },
        _ => Seq::empty(),
    }
}

fn is_const_named(n: &Node, want: &str) -> (r: bool)
    ensures
        r == match *n {
            Node::Named { kind: NamedKind::ConstantRead, name, .. } => name@ == want.spec_bytes(),
            Node::ConstantPath { parent: None, name, .. } => name@ == want.spec_bytes(),
            _ => false,
        },
{
    match n {
        Node::Named { kind: NamedKind::ConstantRead, name, .. } => eq_str(name.as_slice(), want),
        Node::ConstantPath { parent: None, name, .. } => eq_str(name.as_slice(), want),
        _ => false,
    }
}

impl DateTime {
    pub fn name(&self) -> &'static str {
        "Style/DateTime"
    }

    /// The offense at `node`.
    pub fn check_node(&self, source: &SourceFile, node: &Node, allow_coercion: bool) -> (r: Vec<Diagnostic>)
        ensures
            offenses(r@) == spec_check_node(source.text(), *node, allow_coercion),
    {
        let mut out: Vec<Diagnostic> = Vec::new();
        match node {
            Node::Call { name, receiver, arguments, .. } => {
                let (line, column) = source.position(node.loc().start);
                if eq_str(name.as_slice(), "to_datetime") {
                    if !allow_coercion {
                        out.push(diagnostic(line, column, str_bytes("Do not use `#to_datetime`.")));
                    }
                } else {
                    match receiver {
                        Some(r) => {
                            if is_const_named(r, "DateTime") {
                                let historic = if arguments.is_some() {
                                    let args = call_args_exec(node);
                                    args.len() >= 2 && match &args[args.len() - 1] {
                                        Node::ConstantPath { parent: Some(p), .. } => is_const_named(p, "Date"),
                                        _ => false,
                                    }
                                } else {
                                    false
                                };
                                if !historic {
                                    out.push(diagnostic(line, column, str_bytes("Prefer `Time` over `DateTime`.")));
                                }
                            }
                        },
                        None => {},
                    }
                }
            },
            _ => {},
        }
        assert(offenses(out@) =~= spec_check_node(source.text(), *node, allow_coercion));
        out
    }
}

} // verus!
