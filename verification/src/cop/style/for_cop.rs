//! Style/For: `for` loops, which `each` replaces.
use vstd::prelude::*;
use vstd::string::StringSliceAdditionalSpecFns;
use crate::ast::Node;
use crate::bytes::{text_or_empty, text_or_empty_exec};
use crate::cop::style::guard_clause::{indented, indented_exec, text_lines, text_lines_exec};
use crate::diagnostic::{diagnostic, edits, offense, offenses, push_bytes, push_str, str_bytes, Correction, Diagnostic, Edit, Offense};
use crate::source::{spec_column_of, spec_line_of, SourceFile};

verus! {

/// The cop.
pub struct ForCop;

/// The `EnforcedStyle` option.
#[derive(Clone, Copy, PartialEq, Eq, Structural, Debug)]
pub enum ForStyle {
    Each,
    /// `for`, or any other value: nothing is reported.
    For,
}

/// The `each` call that replaces a `for` loop.
pub open spec fn each_replacement(src: Seq<u8>, index: Node, collection: Node, statements: Option<Box<Node>>) -> Seq<u8> {
    let index_src = text_or_empty(src, index.spec_loc().start as int, index.spec_loc().end as int);
    let raw = text_or_empty(src, collection.spec_loc().start as int, collection.spec_loc().end as int);
    let collection_src = if collection is Range { "(".spec_bytes() + raw + ")".spec_bytes() } else { raw };
    let body = match statements {
        Some(s) => indented(text_lines(text_or_empty(src, s.spec_loc().start as int, s.spec_loc().end as int)), 2),
        None => Seq::empty(),
    };
    collection_src + ".each do |".spec_bytes() + index_src + "|\n".spec_bytes()
        + if body.len() == 0 { Seq::empty() } else { body + "\n".spec_bytes() } + "end".spec_bytes()
}

pub open spec fn spec_check_node(src: Seq<u8>, n: Node, style: ForStyle) -> (Seq<Offense>, Seq<Edit>) {
    match n {
        Node::For { loc, index, collection, statements } => if style == ForStyle::Each {
            (
                seq![offense(spec_line_of(src, loc.start as int), spec_column_of(src, loc.start as int), "Prefer `each` over `for`.".spec_bytes())],
                seq![Edit { start: loc.start as int, end: loc.end as int, replacement: each_replacement(src, *index, *collection, statements) }],
            )
        } else {
            (Seq::empty(), Seq::empty())
        },
        _ => (Seq::empty(), Seq::empty()),
    }
}

impl ForCop {
    pub fn name(&self) -> &'static str {
        "Style/For"
    }

    /// The offense and correction at `node`.
    pub fn check_node(&self, source: &SourceFile, node: &Node, style: ForStyle) -> (r: (Vec<Diagnostic>, Vec<Correction>))
        ensures
            (offenses(r.0@), edits(r.1@)) == spec_check_node(source.text(), *node, style),
    {
        let mut out: Vec<Diagnostic> = Vec::new();
        let mut fixes: Vec<Correction> = Vec::new();
        match node {
            Node::For { loc, index, collection, statements } => {
                if style == ForStyle::Each {
                    let text = source.as_bytes();
                    let (line, column) = source.position(loc.start);
                    out.push(diagnostic(line, column, str_bytes("Prefer `each` over `for`.")));
                    let il = index.loc();
                    let cl = collection.loc();
                    let mut rep: Vec<u8> = Vec::new();
                    let is_range = match &**collection {
                        Node::Range { .. } => true,
                        _ => false,
                    };
                    if is_range {
                        push_str(&mut rep, "(");
                    }
                    push_bytes(&mut rep, text_or_empty_exec(text, cl.start, cl.end));
                    if is_range {
                        push_str(&mut rep, ")");
                    }
                    push_str(&mut rep, ".each do |");
                    push_bytes(&mut rep, text_or_empty_exec(text, il.start, il.end));
                    push_str(&mut rep, "|\n");
                    let mut body: Vec<u8> = Vec::new();
                    match statements {
                        Some(s) => {
                            let sl = s.loc();
                            let lines = text_lines_exec(text_or_empty_exec(text, sl.start, sl.end));
                            indented_exec(&lines, 2, &mut body);
                        },
                        None => {},
                    }
                    assert(body@ =~= match *statements {
                        Some(s) => indented(text_lines(text_or_empty(text@, s.spec_loc().start as int, s.spec_loc().end as int)), 2),
                        None => Seq::<u8>::empty(),
                    });
                    if body.len() > 0 {
                        push_bytes(&mut rep, body.as_slice());
                        push_str(&mut rep, "\n");
                    }
                    push_str(&mut rep, "end");
                    assert(rep@ =~= each_replacement(text@, **index, **collection, *statements));
                    fixes.push(Correction { start: loc.start, end: loc.end, replacement: rep });
                }
            },
            _ => {},
        }
        assert(offenses(out@) =~= spec_check_node(source.text(), *node, style).0);
        assert(edits(fixes@) =~= spec_check_node(source.text(), *node, style).1);
        (out, fixes)
    }
}

} // verus!
