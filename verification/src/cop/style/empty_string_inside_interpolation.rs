//! Style/EmptyStringInsideInterpolation: an interpolation that yields an
//! empty string from one branch of a conditional (or, under the `ternary`
//! style, any trailing conditional in an interpolation).
use vstd::prelude::*;
use vstd::string::StringSliceAdditionalSpecFns;
use crate::ast::{is_other, is_other_exec, Node};
use crate::diagnostic::{diagnostic, offense, offenses, str_bytes, Diagnostic, Offense};
use crate::source::{spec_column_of, spec_line_of, SourceFile};

verus! {

/// The cop.
pub struct EmptyStringInsideInterpolation;

/// The `EnforcedStyle` option.
#[derive(Clone, Copy, PartialEq, Eq, Structural, Debug)]
pub enum InterpolationStyle {
    TrailingConditional,
    Ternary,
    /// Any other configured value: nothing is reported.
    Unrecognized,
}

/// `nil`, or a string literal with empty content.
pub open spec fn is_empty_string_or_nil(n: Node) -> bool {
    is_other(n, "NilNode".spec_bytes()) || match n {
        Node::Str { loc, opening_loc, closing_loc, .. } => {
            let start = match opening_loc { Some(o) => o.end, None => loc.start };
            let end = match closing_loc { Some(c) => c.start, None => loc.end };
            start >= end
        },
        _ => false,
    }
}

/// A branch whose only statement is empty.
pub open spec fn branch_is_empty(stmts: Option<Box<Node>>) -> bool {
    match stmts {
        Some(s) => match *s {
            Node::Statements { body, .. } => body@.len() == 1 && is_empty_string_or_nil(body@[0]),
            _ => false,
        },
        None => false,
    }
}

/// The single statement of an interpolation `#{...}`.
pub open spec fn embedded_statement(part: Node) -> Option<Node> {
    if is_other(part, "EmbeddedStatementsNode".spec_bytes()) && part->Other_children@.len() > 0 {
        match part->Other_children@[0] {
            Node::Statements { body, .. } => if body@.len() == 1 { Some(body@[0]) } else { None },
            _ => None,
        }
    } else {
        None
    }
}

/// The message for one interpolation, if it is reported.
pub open spec fn part_message(part: Node, style: InterpolationStyle) -> Option<Seq<u8>> {
    match embedded_statement(part) {
        Some(st) => match style {
            InterpolationStyle::TrailingConditional => match st {
                Node::If { statements, subsequent, .. } => {
                    let else_empty = match subsequent {
                        Some(e) => match *e {
                            Node::Else { statements: es, .. } => branch_is_empty(es),
                            _ => false,
                        },
                        None => false,
                    };
                    if branch_is_empty(statements) || else_empty {
                        Some("Do not return empty strings in string interpolation.".spec_bytes())
                    } else {
                        None
                    }
                },
                _ => None,
            },
            InterpolationStyle::Ternary => match st {
                Node::If { subsequent: None, .. } => Some("Do not use trailing conditionals in string interpolation.".spec_bytes()),
                Node::Unless { .. } => Some("Do not use trailing conditionals in string interpolation.".spec_bytes()),
                _ => None,
            },
            InterpolationStyle::Unrecognized => None,
        },
        None => None,
    }
}

/// The offenses of the first `k` parts.
pub open spec fn parts_offenses(src: Seq<u8>, parts: Seq<Node>, k: int, style: InterpolationStyle) -> Seq<Offense>
    decreases k,
{
    if k <= 0 || k > parts.len() {
        Seq::empty()
    } else {
        parts_offenses(src, parts, k - 1, style) + match part_message(parts[k - 1], style) {
            Some(m) => seq![offense(spec_line_of(src, parts[k - 1].spec_loc().start as int), spec_column_of(src, parts[k - 1].spec_loc().start as int), m)],
            None => Seq::empty(),
        }
    }
}

pub open spec fn spec_check_node(src: Seq<u8>, n: Node, style: InterpolationStyle) -> Seq<Offense> {
    match n {
        Node::InterpolatedStr { parts, .. } => parts_offenses(src, parts@, parts@.len() as int, style),
        _ => Seq::empty(),
    }
}

fn is_empty_string_or_nil_exec(n: &Node) -> (r: bool)
    ensures
        r == is_empty_string_or_nil(*n),
{
    if is_other_exec(n, "NilNode") {
        return true;
    }
    match n {
        Node::Str { loc, opening_loc, closing_loc, .. } => {
            let start = match opening_loc { Some(o) => o.end, None => loc.start };
            let end = match closing_loc { Some(c) => c.start, None => loc.end };
            start >= end
        },
        _ => false,
    }
}

fn branch_is_empty_exec(stmts: &Option<Box<Node>>) -> (r: bool)
    ensures
        r == branch_is_empty(*stmts),
{
    match stmts {
        Some(s) => match &**s {
            Node::Statements { body, .. } => body.len() == 1 && is_empty_string_or_nil_exec(&body[0]),
            _ => false,
        },
        None => false,
    }
}

fn embedded_statement_exec(part: &Node) -> (r: Option<&Node>)
    ensures
        match r {
            Some(s) => embedded_statement(*part) == Some(*s),
            None => embedded_statement(*part) is None,
        },
{
    match part {
        Node::Other { children, .. } => {
            if is_other_exec(part, "EmbeddedStatementsNode") && children.len() > 0 {
                match &children[0] {
                    Node::Statements { body, .. } => if body.len() == 1 { Some(&body[0]) } else { None },
                    _ => None,
                }
            } else {
                None
            }
        },
        _ => None,
    }
}

fn part_message_exec(part: &Node, style: InterpolationStyle) -> (r: Option<Vec<u8>>)
    ensures
        match r {
            Some(m) => part_message(*part, style) == Some(m@),
            None => part_message(*part, style) is None,
        },
{
    let st = match embedded_statement_exec(part) {
        Some(s) => s,
        None => {
            return None;
        },
    };
    match style {
        InterpolationStyle::TrailingConditional => match st {
            Node::If { statements, subsequent, .. } => {
                let else_empty = match subsequent {
                    Some(e) => match &**e {
                        Node::Else { statements: es, .. } => branch_is_empty_exec(es),
                        _ => false,
                    },
                    None => false,
                };
                if branch_is_empty_exec(statements) || else_empty {
                    Some(str_bytes("Do not return empty strings in string interpolation."))
                } else {
                    None
                }
            },
            _ => None,
        },
        InterpolationStyle::Ternary => match st {
            Node::If { subsequent: None, .. } => Some(str_bytes("Do not use trailing conditionals in string interpolation.")),
            Node::Unless { .. } => Some(str_bytes("Do not use trailing conditionals in string interpolation.")),
            _ => None,
        },
        InterpolationStyle::Unrecognized => None,
    }
}

impl EmptyStringInsideInterpolation {
    pub fn name(&self) -> &'static str {
        "Style/EmptyStringInsideInterpolation"
    }

    /// The offenses at `node`, one per reported interpolation.
    pub fn check_node(&self, source: &SourceFile, node: &Node, style: InterpolationStyle) -> (r: Vec<Diagnostic>)
        ensures
            offenses(r@) == spec_check_node(source.text(), *node, style),
    {
        let mut out: Vec<Diagnostic> = Vec::new();
        let parts = match node {
            Node::InterpolatedStr { parts, .. } => parts,
            _ => {
                assert(offenses(out@) =~= spec_check_node(source.text(), *node, style));
                return out;
            },
        };
        let ghost src = source.text();
        let mut i: usize = 0;
        assert(offenses(out@) =~= Seq::<Offense>::empty());
        while i < parts.len()
            invariant
                i <= parts@.len(),
                src == source.text(),
                offenses(out@) == parts_offenses(src, parts@, i as int, style),
            decreases parts@.len() - i,
        {
            let ghost b = out@;
            match part_message_exec(&parts[i], style) {
                Some(m) => {
                    let (line, column) = source.position(parts[i].loc().start);
                    out.push(diagnostic(line, column, m));
                    assert(offenses(out@) =~= offenses(b) + seq![offenses(out@).last()]);
                },
                None => {},
            }
            assert(offenses(out@) =~= parts_offenses(src, parts@, i + 1, style));
            i = i + 1;
        }
        out
    }
}

} // verus!
