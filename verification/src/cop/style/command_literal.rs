//! Style/CommandLiteral: command literals written with backticks or with
//! `%x`, as the configured style asks.
use vstd::prelude::*;
use vstd::string::StringSliceAdditionalSpecFns;
use crate::ast::Node;
use crate::bytes::{bytes_eq, contains_byte, contains_seq, contains_str, src_range, src_range_exec, subslice};
use crate::diagnostic::{diagnostic, offense, offenses, str_bytes, Diagnostic, Offense};
use crate::source::{nl_count, spec_column_of, spec_line_of, Loc, SourceFile};

verus! {

/// The cop.
pub struct CommandLiteral;

/// The configured `EnforcedStyle`.
#[derive(Clone, Copy, PartialEq, Eq, Structural, Debug)]
pub enum CommandLiteralStyle {
    Backticks,
    PercentX,
    Mixed,
    /// Any other configured value: nothing is reported.
    Other,
}

/// The text of the literal, its opening delimiter, and whether it is a
/// command literal at all.
pub open spec fn literal_parts(n: Node) -> Option<(Loc, Loc)> {
    match n {
        Node::XStr { loc, opening_loc, .. } => Some((loc, opening_loc)),
        Node::InterpolatedXStr { loc, opening_loc, .. } => Some((loc, opening_loc)),
        _ => None,
    }
}

/// Whether the literal's text holds a backtick: escaped as `` \` `` in the
/// backtick form, anywhere between the delimiters in the `%x` form.
pub open spec fn has_inner_backticks(text: Seq<u8>, open: Seq<u8>, is_backtick: bool) -> bool {
    if is_backtick {
        contains_seq(text, "\\`".spec_bytes())
    } else if text.len() > open.len() + 1 {
        text.subrange(open.len() as int, text.len() - 1).contains(96u8)
    } else {
        false
    }
}

pub open spec fn use_percent_x() -> Seq<u8> {
    "Use `%x` around command string.".spec_bytes()
}

pub open spec fn use_backticks() -> Seq<u8> {
    "Use backticks around command string.".spec_bytes()
}

/// The message for a literal, if it breaks the style.
pub open spec fn verdict(
    style: CommandLiteralStyle,
    is_backtick: bool,
    is_multiline: bool,
    disallowed: bool,
) -> Option<Seq<u8>> {
    match style {
        CommandLiteralStyle::Backticks => if is_backtick && disallowed {
            Some(use_percent_x())
        } else if !is_backtick && !disallowed {
            Some(use_backticks())
        } else {
            None
        },
        CommandLiteralStyle::PercentX => if is_backtick {
            Some(use_percent_x())
        } else {
            None
        },
        CommandLiteralStyle::Mixed => if is_backtick && (is_multiline || disallowed) {
            Some(use_percent_x())
        } else if !is_backtick && !is_multiline && !disallowed {
            Some(use_backticks())
        } else {
            None
        },
        CommandLiteralStyle::Other => None,
    }
}

/// The offense at a command literal (at its start) that breaks the style.
/// A literal spanning more than one line break counts as multi-line.
pub open spec fn spec_check_node(
    src: Seq<u8>,
    n: Node,
    style: CommandLiteralStyle,
    allow_inner_backticks: bool,
) -> Seq<Offense> {
    match literal_parts(n) {
        Some((loc, op)) => {
            let text = src_range(src, loc.start as int, loc.end as int);
            let open = src_range(src, op.start as int, op.end as int);
            let is_backtick = open == "`".spec_bytes();
            let is_multiline = nl_count(text, text.len() as int) > 1;
            let disallowed = !allow_inner_backticks && has_inner_backticks(text, open, is_backtick);
            match verdict(style, is_backtick, is_multiline, disallowed) {
                Some(m) => seq![offense(spec_line_of(src, loc.start as int), spec_column_of(src, loc.start as int), m)],
                None => Seq::empty(),
            }
        },
        None => Seq::empty(),
    }
}

/// Whether `s` holds more than one line break.
fn is_multiline_exec(s: &[u8]) -> (r: bool)
    ensures
        r == (nl_count(s@, s@.len() as int) > 1),
{
    let mut n: usize = 0;
    let mut i: usize = 0;
    while i < s.len()
        invariant
            i <= s@.len(),
            n == nl_count(s@, i as int),
            n <= i,
        decreases s@.len() - i,
    {
        if s[i] == 10u8 {
            n = n + 1;
        }
        i = i + 1;
    }
    n > 1
}

fn verdict_exec(
    style: CommandLiteralStyle,
    is_backtick: bool,
    is_multiline: bool,
    disallowed: bool,
) -> (r: Option<Vec<u8>>)
    ensures
        match r {
            Some(m) => verdict(style, is_backtick, is_multiline, disallowed) == Some(m@),
            None => verdict(style, is_backtick, is_multiline, disallowed) is None,
        },
{
    match style {
        CommandLiteralStyle::Backticks => if is_backtick && disallowed {
            Some(str_bytes("Use `%x` around command string."))
        } else if !is_backtick && !disallowed {
            Some(str_bytes("Use backticks around command string."))
        } else {
            None
        },
        CommandLiteralStyle::PercentX => if is_backtick {
            Some(str_bytes("Use `%x` around command string."))
        } else {
            None
        },
        CommandLiteralStyle::Mixed => if is_backtick && (is_multiline || disallowed) {
            Some(str_bytes("Use `%x` around command string."))
        } else if !is_backtick && !is_multiline && !disallowed {
            Some(str_bytes("Use backticks around command string."))
        } else {
            None
        },
        CommandLiteralStyle::Other => None,
    }
}

impl CommandLiteral {
    pub fn name(&self) -> &'static str {
        "Style/CommandLiteral"
    }

    /// The offense at `node` under the configured style.
    pub fn check_node(
        &self,
        source: &SourceFile,
        node: &Node,
        style: CommandLiteralStyle,
        allow_inner_backticks: bool,
    ) -> (r: Vec<Diagnostic>)
        ensures
            offenses(r@) == spec_check_node(source.text(), *node, style, allow_inner_backticks),
    {
        let mut out: Vec<Diagnostic> = Vec::new();
        let (loc, op) = match node {
            Node::XStr { loc, opening_loc, .. } => (*loc, *opening_loc),
            Node::InterpolatedXStr { loc, opening_loc, .. } => (*loc, *opening_loc),
            _ => {
                return out;
            },
        };
        let src = source.as_bytes();
        let text = src_range_exec(src, loc.start, loc.end);
        let open = src_range_exec(src, op.start, op.end);
        let is_backtick = bytes_eq(open, "`".as_bytes());
        let is_multiline = is_multiline_exec(text);
        let inner = if is_backtick {
            contains_str(text, "\\`")
        } else if text.len() > 0 && text.len() - 1 > open.len() {
            contains_byte(subslice(text, open.len(), text.len() - 1), 96u8)
        } else {
            false
        };
        let disallowed = !allow_inner_backticks && inner;
        match verdict_exec(style, is_backtick, is_multiline, disallowed) {
            Some(m) => {
                let (line, column) = source.position(loc.start);
                out.push(diagnostic(line, column, m));
            },
            None => {},
        }
        assert(offenses(out@) =~= spec_check_node(source.text(), *node, style, allow_inner_backticks));
        out
    }
}

} // verus!
