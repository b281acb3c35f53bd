//! Style/EvalWithLocation: `eval` and friends on a string without
//! `__FILE__` and `__LINE__` (and, for `eval`, a binding).
use vstd::prelude::*;
use vstd::string::StringSliceAdditionalSpecFns;
use crate::ast::{call_args_exec, is_top_constant_exec, Node};
use crate::bytes::eq_str;
use crate::diagnostic::{
    edits, offense, offenses, push_bytes, push_str, str_bytes, Correction, Diagnostic, Edit,
    Offense,
};
use crate::source::{spec_column_of, spec_line_of, SourceFile};

verus! {

/// The cop.
pub struct EvalWithLocation;

pub open spec fn spec_is_eval_method(name: Seq<u8>) -> bool {
    ||| name == "eval".spec_bytes()
    ||| name == "class_eval".spec_bytes()
    ||| name == "module_eval".spec_bytes()
    ||| name == "instance_eval".spec_bytes()
}

pub open spec fn spec_requires_binding(name: Seq<u8>) -> bool {
    name == "eval".spec_bytes()
}

/// A string or command string literal, plain or interpolated.
pub open spec fn is_string_arg(n: Node) -> bool {
    n is Str || n is InterpolatedStr || n is XStr || n is InterpolatedXStr
}

pub open spec fn eval_message(name: Seq<u8>) -> Seq<u8> {
    if spec_requires_binding(name) {
        "Pass a binding, `__FILE__`, and `__LINE__` to `".spec_bytes() + name + "`.".spec_bytes()
    } else {
        "Pass `__FILE__` and `__LINE__` to `".spec_bytes() + name + "`.".spec_bytes()
    }
}

/// The arguments to add after `count` given ones.
pub open spec fn missing_args(binding: bool, count: int) -> Seq<u8> {
    if binding {
        if count == 1 {
            ", binding, __FILE__, __LINE__".spec_bytes()
        } else if count == 2 {
            ", __FILE__, __LINE__".spec_bytes()
        } else if count == 3 {
            ", __LINE__".spec_bytes()
        } else {
            Seq::empty()
        }
    } else {
        if count == 1 {
            ", __FILE__, __LINE__".spec_bytes()
        } else if count == 2 {
            ", __LINE__".spec_bytes()
        } else {
            Seq::empty()
        }
    }
}

/// Whether `n` is an eval call the cop looks at: an eval method without a
/// block, `eval` only without receiver or on `Kernel`.
pub open spec fn is_candidate(n: Node) -> bool {
    &&& n matches Node::Call { name, block: None, .. }
    &&& spec_is_eval_method(n->Call_name@)
    &&& (n->Call_name@ == "eval".spec_bytes() ==> match n->Call_receiver {
        None => true,
        Some(r) => r.is_top_constant("Kernel".spec_bytes()),
    })
}

/// The offense and correction at `n`.
pub open spec fn spec_check_node(src: Seq<u8>, n: Node) -> (Seq<Offense>, Seq<Edit>) {
    if !is_candidate(n) {
        (Seq::empty(), Seq::empty())
    } else {
        let name = n->Call_name@;
        let off = offense(
            spec_line_of(src, n.spec_loc().start as int),
            spec_column_of(src, n.spec_loc().start as int),
            eval_message(name),
        );
        let args = n.call_args();
        if n->Call_arguments is None {
            (seq![off], Seq::empty())
        } else if args.len() == 0 || !is_string_arg(args[0]) {
            (Seq::empty(), Seq::empty())
        } else if args.len() < (if spec_requires_binding(name) { 4int } else { 3int }) {
            let add = missing_args(spec_requires_binding(name), args.len() as int);
            let at = args.last().spec_loc().end as int;
            (seq![off], if add.len() > 0 {
                seq![Edit { start: at, end: at, replacement: add }]
            } else {
                Seq::empty()
            })
        } else {
            (Seq::empty(), Seq::empty())
        }
    }
}

pub fn is_eval_method(name: &[u8]) -> (r: bool)
    ensures
        r == spec_is_eval_method(name@),
{
    eq_str(name, "eval") || eq_str(name, "class_eval") || eq_str(name, "module_eval") || eq_str(
        name,
        "instance_eval",
    )
}

pub fn requires_binding(name: &[u8]) -> (r: bool)
    ensures
        r == spec_requires_binding(name@),
{
    eq_str(name, "eval")
}

fn eval_message_exec(name: &[u8]) -> (r: Vec<u8>)
    ensures
        r@ == eval_message(name@),
{
    let mut m: Vec<u8> = Vec::new();
    if requires_binding(name) {
        push_str(&mut m, "Pass a binding, `__FILE__`, and `__LINE__` to `");
    } else {
        push_str(&mut m, "Pass `__FILE__` and `__LINE__` to `");
    }
    push_bytes(&mut m, name);
    push_str(&mut m, "`.");
    m
}

fn missing_args_exec(binding: bool, count: usize) -> (r: Vec<u8>)
    ensures
        r@ == missing_args(binding, count as int),
{
    if binding {
        if count == 1 {
            str_bytes(", binding, __FILE__, __LINE__")
        } else if count == 2 {
            str_bytes(", __FILE__, __LINE__")
        } else if count == 3 {
            str_bytes(", __LINE__")
        } else {
            Vec::new()
        }
    } else {
        if count == 1 {
            str_bytes(", __FILE__, __LINE__")
        } else if count == 2 {
            str_bytes(", __LINE__")
        } else {
            Vec::new()
        }
    }
}

impl EvalWithLocation {
    pub fn name(&self) -> &'static str {
        "Style/EvalWithLocation"
    }

    /// The offense at `node`, if it is an eval call on a string without the
    /// location arguments, and the correction that appends them.
    pub fn check_node(&self, source: &SourceFile, node: &Node) -> (r: (Vec<Diagnostic>, Vec<Correction>))
        ensures
            (offenses(r.0@), edits(r.1@)) == spec_check_node(source.text(), *node),
    {
        let mut out: Vec<Diagnostic> = Vec::new();
        let mut fixes: Vec<Correction> = Vec::new();
        let (name, receiver, arguments) = match node {
            Node::Call { name, block: None, receiver, arguments, .. } => (name, receiver, arguments),
            _ => {
                return (out, fixes);
            },
        };
        if !is_eval_method(name.as_slice()) {
            return (out, fixes);
        }
        if eq_str(name.as_slice(), "eval") {
            match receiver {
                Some(r) => {
                    if !is_top_constant_exec(r, "Kernel") {
                        return (out, fixes);
                    }
                },
                None => {},
            }
        }
        let (line, column) = source.position(node.loc().start);
        let binding = requires_binding(name.as_slice());
        if arguments.is_none() {
            out.push(crate::diagnostic::diagnostic(line, column, eval_message_exec(name.as_slice())));
            assert(offenses(out@) =~= spec_check_node(source.text(), *node).0);
            assert(edits(fixes@) =~= spec_check_node(source.text(), *node).1);
            return (out, fixes);
        }
        let args = call_args_exec(node);
        if args.len() == 0 {
            return (out, fixes);
        }
        let first_is_string = match &args[0] {
            Node::Str { .. } => true,
            Node::InterpolatedStr { .. } => true,
            Node::XStr { .. } => true,
            Node::InterpolatedXStr { .. } => true,
            _ => false,
        };
        if !first_is_string {
            return (out, fixes);
        }
        let expected: usize = if binding { 4 } else { 3 };
        if args.len() < expected {
            out.push(crate::diagnostic::diagnostic(line, column, eval_message_exec(name.as_slice())));
            let add = missing_args_exec(binding, args.len());
            if add.len() > 0 {
                let at = args[args.len() - 1].loc().end;
                fixes.push(Correction { start: at, end: at, replacement: add });
            }
            assert(offenses(out@) =~= spec_check_node(source.text(), *node).0);
            assert(edits(fixes@) =~= spec_check_node(source.text(), *node).1);
        }
        (out, fixes)
    }
}

} // verus!
