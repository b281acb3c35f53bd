//! Style/FloatDivision: where `.to_f` goes in a float division, by the
//! configured style.
use vstd::prelude::*;
use vstd::string::StringSliceAdditionalSpecFns;
use crate::ast::{call_args_exec, Node};
use crate::bytes::{eq_str, text_or_empty, text_or_empty_exec};
use crate::diagnostic::{
    diagnostic, edits, offense, offenses, push_bytes, push_str, str_bytes, Correction, Diagnostic,
    Edit, Offense,
};
use crate::source::{spec_column_of, spec_line_of, SourceFile};

verus! {

/// The cop.
pub struct FloatDivision;

/// The `EnforcedStyle` option.
#[derive(Clone, Copy, PartialEq, Eq, Structural, Debug)]
pub enum FloatDivisionStyle {
    SingleCoerce,
    LeftCoerce,
    RightCoerce,
    Fdiv,
    /// Any other configured value: nothing is reported.
    Unrecognized,
}

/// `x.to_f` (with a receiver, without arguments).
pub open spec fn spec_is_to_f_call(n: Node) -> bool {
    n matches Node::Call { name, receiver: Some(_), arguments: None, .. } && name@ == "to_f".spec_bytes()
}

/// Deleting `.to_f` from a call: from its dot to the end of its selector.
pub open spec fn remove_to_f(c: Node) -> Seq<Edit> {
    match c {
        Node::Call { call_operator_loc: Some(dot), message_loc: Some(m), .. } => seq![
            Edit { start: dot.start as int, end: m.end as int, replacement: Seq::empty() },
        ],
        _ => Seq::empty(),
    }
}

/// Appending `.to_f` to a node.
pub open spec fn add_to_f(n: Node) -> Seq<Edit> {
    seq![Edit { start: n.spec_loc().end as int, end: n.spec_loc().end as int, replacement: ".to_f".spec_bytes() }]
}

/// The text of an operand without its `.to_f`.
pub open spec fn operand_without_to_f(src: Seq<u8>, n: Node) -> Seq<u8> {
    match n {
        Node::Call { name, receiver: Some(r), .. } => if name@ == "to_f".spec_bytes() {
            text_or_empty(src, r.spec_loc().start as int, r.spec_loc().end as int)
        } else {
            text_or_empty(src, n.spec_loc().start as int, n.spec_loc().end as int)
        },
        _ => text_or_empty(src, n.spec_loc().start as int, n.spec_loc().end as int),
    }
}

/// The offense and corrections at `n`.
pub open spec fn spec_check_node(src: Seq<u8>, n: Node, style: FloatDivisionStyle) -> (Seq<Offense>, Seq<Edit>) {
    let none = (Seq::<Offense>::empty(), Seq::<Edit>::empty());
    match n {
        Node::Call { name, receiver: Some(recv), arguments: Some(_), .. } => {
            let args = n.call_args();
            if name@ != "/".spec_bytes() || args.len() != 1 {
                none
            } else {
                let l = spec_is_to_f_call(*recv);
                let r = spec_is_to_f_call(args[0]);
                let start = n.spec_loc().start as int;
                let at = |m: Seq<u8>| seq![offense(spec_line_of(src, start), spec_column_of(src, start), m)];
                if !l && !r {
                    none
                } else {
                    match style {
                        FloatDivisionStyle::SingleCoerce => if l && r {
                            (at("Prefer using `.to_f` on one side only.".spec_bytes()), remove_to_f(args[0]))
                        } else {
                            none
                        },
                        FloatDivisionStyle::LeftCoerce => if r {
                            (
                                at("Prefer using `.to_f` on the left side.".spec_bytes()),
                                remove_to_f(args[0]) + if !l { add_to_f(*recv) } else { Seq::empty() },
                            )
                        } else {
                            none
                        },
                        FloatDivisionStyle::RightCoerce => if l {
                            (
                                at("Prefer using `.to_f` on the right side.".spec_bytes()),
                                remove_to_f(*recv) + if !r { add_to_f(args[0]) } else { Seq::empty() },
                            )
                        } else {
                            none
                        },
                        FloatDivisionStyle::Fdiv => (
                            at("Prefer using `fdiv` for float divisions.".spec_bytes()),
                            seq![
                                Edit {
                                    start,
                                    end: n.spec_loc().end as int,
                                    replacement: operand_without_to_f(src, *recv) + ".fdiv(".spec_bytes()
                                        + operand_without_to_f(src, args[0]) + ")".spec_bytes(),
                                },
                            ],
                        ),
                        FloatDivisionStyle::Unrecognized => none,
                    }
                }
            }
        },
        _ => none,
    }
}

fn is_to_f_call(n: &Node) -> (r: bool)
    ensures
        r == spec_is_to_f_call(*n),
{
    match n {
        Node::Call { name, receiver: Some(_), arguments: None, .. } => eq_str(name.as_slice(), "to_f"),
        _ => false,
    }
}

fn remove_to_f_exec(c: &Node, fixes: &mut Vec<Correction>)
    ensures
        edits(final(fixes)@) == edits(old(fixes)@) + remove_to_f(*c),
{
    let ghost e = edits(fixes@);
    match c {
        Node::Call { call_operator_loc: Some(dot), message_loc: Some(m), .. } => {
            let empty: Vec<u8> = Vec::new();
            assert(empty@ =~= Seq::<u8>::empty());
            fixes.push(Correction { start: dot.start, end: m.end, replacement: empty });
        },
        _ => {},
    }
    assert(edits(fixes@) =~= e + remove_to_f(*c));
}

fn add_to_f_exec(n: &Node, fixes: &mut Vec<Correction>)
    ensures
        edits(final(fixes)@) == edits(old(fixes)@) + add_to_f(*n),
{
    let ghost e = edits(fixes@);
    let end = n.loc().end;
    fixes.push(Correction { start: end, end, replacement: str_bytes(".to_f") });
    assert(edits(fixes@) =~= e + add_to_f(*n));
}

fn operand_exec<'a>(src: &'a [u8], n: &Node) -> (r: &'a [u8])
    ensures
        r@ == operand_without_to_f(src@, *n),
{
    match n {
        Node::Call { name, receiver: Some(r), .. } => {
            if eq_str(name.as_slice(), "to_f") {
                let l = r.loc();
                return text_or_empty_exec(src, l.start, l.end);
            }
        },
        _ => {},
    }
    let l = n.loc();
    text_or_empty_exec(src, l.start, l.end)
}

impl FloatDivision {
    pub fn name(&self) -> &'static str {
        "Style/FloatDivision"
    }

    /// The offense and corrections at `node`.
    pub fn check_node(&self, source: &SourceFile, node: &Node, style: FloatDivisionStyle) -> (r: (Vec<Diagnostic>, Vec<Correction>))
        ensures
            (offenses(r.0@), edits(r.1@)) == spec_check_node(source.text(), *node, style),
    {
        let mut out: Vec<Diagnostic> = Vec::new();
        let mut fixes: Vec<Correction> = Vec::new();
        let ghost res = spec_check_node(source.text(), *node, style);
        let (name, recv) = match node {
            Node::Call { name, receiver: Some(recv), arguments: Some(_), .. } => (name, recv),
            _ => {
                assert(offenses(out@) =~= res.0 && edits(fixes@) =~= res.1);
                return (out, fixes);
            },
        };
        let args = call_args_exec(node);
        if !eq_str(name.as_slice(), "/") || args.len() != 1 {
            assert(offenses(out@) =~= res.0 && edits(fixes@) =~= res.1);
            return (out, fixes);
        }
        let l = is_to_f_call(recv);
        let r = is_to_f_call(&args[0]);
        if !l && !r {
            assert(offenses(out@) =~= res.0 && edits(fixes@) =~= res.1);
            return (out, fixes);
        }
        let loc = node.loc();
        let (line, column) = source.position(loc.start);
        match style {
            FloatDivisionStyle::SingleCoerce => {
                if l && r {
                    out.push(diagnostic(line, column, str_bytes("Prefer using `.to_f` on one side only.")));
                    remove_to_f_exec(&args[0], &mut fixes);
                }
            },
            FloatDivisionStyle::LeftCoerce => {
                if r {
                    out.push(diagnostic(line, column, str_bytes("Prefer using `.to_f` on the left side.")));
                    remove_to_f_exec(&args[0], &mut fixes);
                    if !l {
                        add_to_f_exec(recv, &mut fixes);
                    }
                }
            },
            FloatDivisionStyle::RightCoerce => {
                if l {
                    out.push(diagnostic(line, column, str_bytes("Prefer using `.to_f` on the right side.")));
                    remove_to_f_exec(recv, &mut fixes);
                    if !r {
                        add_to_f_exec(&args[0], &mut fixes);
                    }
                }
            },
            FloatDivisionStyle::Fdiv => {
                out.push(diagnostic(line, column, str_bytes("Prefer using `fdiv` for float divisions.")));
                let text = source.as_bytes();
                let mut rep: Vec<u8> = Vec::new();
                push_bytes(&mut rep, operand_exec(text, recv));
                push_str(&mut rep, ".fdiv(");
                push_bytes(&mut rep, operand_exec(text, &args[0]));
                push_str(&mut rep, ")");
                fixes.push(Correction { start: loc.start, end: loc.end, replacement: rep });
            },
            FloatDivisionStyle::Unrecognized => {},
        }
        assert(offenses(out@) =~= res.0 && edits(fixes@) =~= res.1);
        (out, fixes)
    }
}

} // verus!
