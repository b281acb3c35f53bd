//! Style/EmptyElse: an `else` that is empty or holds only `nil`.
use vstd::prelude::*;
use vstd::string::StringSliceAdditionalSpecFns;
use crate::ast::{children, is_other, is_other_exec, Node};
use crate::bytes::{contains_byte, eq_str, src_range, src_range_exec};
use crate::diagnostic::{diagnostic, offense, offenses, str_bytes, Diagnostic, Offense};
use crate::source::{spec_column_of, spec_line_of, SourceFile};

verus! {

/// The cop.
pub struct EmptyElse;

/// The configured `EnforcedStyle`.
#[derive(Clone, Copy, PartialEq, Eq, Structural, Debug)]
pub enum EmptyElseStyle {
    Empty,
    Nil,
    Both,
    /// Any other configured value: nothing is reported.
    Other,
}

pub open spec fn checks_empty(style: EmptyElseStyle) -> bool {
    style == EmptyElseStyle::Empty || style == EmptyElseStyle::Both
}

pub open spec fn checks_nil(style: EmptyElseStyle) -> bool {
    style == EmptyElseStyle::Nil || style == EmptyElseStyle::Both
}

/// The `else` at the end of an `if`/`elsif` chain.
pub open spec fn chain_else(n: Node) -> Option<Node>
    decreases n,
{
    match n {
        Node::If { subsequent: Some(s), .. } => match *s {
            Node::Else { .. } => Some(*s),
            Node::If { .. } => chain_else(*s),
            _ => None,
        },
        _ => None,
    }
}

/// The `else` a node owns: of an `if` chain (starting at an `if`, not an
/// `elsif` or a modifier), of an `unless`, or of a `case`.
pub open spec fn owned_else(src: Seq<u8>, n: Node) -> Option<Node> {
    match n {
        Node::If { if_keyword_loc: Some(k), .. } => if src_range(src, k.start as int, k.end as int) == "if".spec_bytes() {
            chain_else(n)
        } else {
            None
        },
        Node::Unless { else_clause: Some(e), .. } => if *e is Else { Some(*e) } else { None },
        _ => if is_other(n, "CaseNode".spec_bytes()) && children(n).len() > 0 && children(n).last() is Else {
            Some(children(n).last())
        } else {
            None
        },
    }
}

/// Whether an `else` is redundant: empty (and, with `AllowComments`, with
/// no `#` between `else` and `end`), or holding only `nil`.
pub open spec fn redundant(src: Seq<u8>, e: Node, style: EmptyElseStyle, allow_comments: bool) -> bool {
    match e {
        Node::Else { else_keyword_loc: kw, statements: None, end_keyword_loc, .. } => checks_empty(style) && !(allow_comments
            && match end_keyword_loc {
            Some(end) => kw.end < end.start && src_range(src, kw.end as int, end.start as int).contains(35u8),
            None => false,
        }),
        Node::Else { statements: Some(s), .. } => checks_nil(style) && match *s {
            Node::Statements { body, .. } => body@.len() == 1 && is_other(body@[0], "NilNode".spec_bytes()),
            _ => false,
        },
        _ => false,
    }
}

pub open spec fn spec_check_node(src: Seq<u8>, n: Node, style: EmptyElseStyle, allow_comments: bool) -> Seq<Offense> {
    match owned_else(src, n) {
        Some(e) => if redundant(src, e, style, allow_comments) {
            let at = e->Else_else_keyword_loc.start as int;
            seq![offense(spec_line_of(src, at), spec_column_of(src, at), "Redundant `else`-clause.".spec_bytes())]
        } else {
            Seq::empty()
        },
        None => Seq::empty(),
    }
}

fn chain_else_exec(n: &Node) -> (r: Option<&Node>)
    ensures
        match r {
            Some(e) => chain_else(*n) == Some(*e),
            None => chain_else(*n) is None,
        },
    decreases n,
{
    match n {
        Node::If { subsequent: Some(s), .. } => match &**s {
            Node::Else { .. } => Some(&**s),
            Node::If { .. } => chain_else_exec(s),
            _ => None,
        },
        _ => None,
    }
}

fn owned_else_exec<'a>(src: &[u8], n: &'a Node) -> (r: Option<&'a Node>)
    ensures
        match r {
            Some(e) => owned_else(src@, *n) == Some(*e),
            None => owned_else(src@, *n) is None,
        },
{
    match n {
        Node::If { if_keyword_loc: Some(k), .. } => if eq_str(src_range_exec(src, k.start, k.end), "if") {
            chain_else_exec(n)
        } else {
            None
        },
        Node::If { .. } => None,
        Node::Unless { else_clause: Some(e), .. } => match &**e {
            Node::Else { .. } => Some(&**e),
            _ => None,
        },
        Node::Unless { .. } => None,
        Node::Other { children: cs, .. } => {
            assert(children(*n) == cs@);
            if is_other_exec(n, "CaseNode") && cs.len() > 0 {
                match &cs[cs.len() - 1] {
                    Node::Else { .. } => Some(&cs[cs.len() - 1]),
                    _ => None,
                }
            } else {
                None
            }
        },
        _ => None,
    }
}

impl EmptyElse {
    pub fn name(&self) -> &'static str {
        "Style/EmptyElse"
    }

    /// The offense at the `else` owned by `node`, under the configured
    /// `EnforcedStyle` and `AllowComments`.
    pub fn check_node(&self, source: &SourceFile, node: &Node, style: EmptyElseStyle, allow_comments: bool) -> (r: Vec<Diagnostic>)
        ensures
            offenses(r@) == spec_check_node(source.text(), *node, style, allow_comments),
    {
        let mut out: Vec<Diagnostic> = Vec::new();
        let src = source.as_bytes();
        let check_empty = style == EmptyElseStyle::Empty || style == EmptyElseStyle::Both;
        let check_nil = style == EmptyElseStyle::Nil || style == EmptyElseStyle::Both;
        match owned_else_exec(src, node) {
            Some(e) => match e {
                Node::Else { else_keyword_loc: kw, statements, end_keyword_loc, .. } => {
                    let hit = match statements {
                        None => check_empty && !(allow_comments && match end_keyword_loc {
                            Some(end) => kw.end < end.start && contains_byte(src_range_exec(src, kw.end, end.start), 35u8),
                            None => false,
                        }),
                        Some(s) => check_nil && match &**s {
                            Node::Statements { body, .. } => body.len() == 1 && is_other_exec(&body[0], "NilNode"),
                            _ => false,
                        },
                    };
                    if hit {
                        let (line, column) = source.position(kw.start);
                        out.push(diagnostic(line, column, str_bytes("Redundant `else`-clause.")));
                    }
                },
                _ => {},
            },
            None => {},
        }
        assert(offenses(out@) =~= spec_check_node(source.text(), *node, style, allow_comments));
        out
    }
}

} // verus!
