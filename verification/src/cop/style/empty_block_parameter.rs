//! Style/EmptyBlockParameter: `||` around no block parameters.
use vstd::prelude::*;
use vstd::string::StringSliceAdditionalSpecFns;
use crate::ast::Node;
use crate::bytes::{eq_str, src_range, src_range_exec};
use crate::diagnostic::{diagnostic, edits, offense, offenses, str_bytes, Correction, Diagnostic, Edit, Offense};
use crate::source::{spec_column_of, spec_line_of, SourceFile};

verus! {

/// The cop.
pub struct EmptyBlockParameter;

/// A parameter list without parameters.
pub open spec fn params_empty(p: Option<Box<Node>>) -> bool {
    match p {
        None => true,
        Some(inner) => match *inner {
            Node::Parameters { requireds, optionals, rest, posts, keywords, keyword_rest, block, .. } =>
                requireds@.len() == 0 && optionals@.len() == 0 && rest is None && posts@.len() == 0
                    && keywords@.len() == 0 && keyword_rest is None && block is None,
            _ => true,
        },
    }
}

/// The offense at the `|` of an empty `||`, and the correction that removes
/// the pipes (with one space before them).
pub open spec fn spec_check_node(src: Seq<u8>, n: Node) -> (Seq<Offense>, Seq<Edit>) {
    match n {
        Node::Block { parameters: Some(p), .. } => match *p {
            Node::BlockParameters { loc, parameters, locals, opening_loc: Some(o), .. } =>
                if src_range(src, o.start as int, o.end as int) == "|".spec_bytes() && params_empty(parameters) && locals@.len() == 0 {
                let start = if loc.start > 0 && loc.start - 1 < src.len() && src[loc.start - 1] == 32u8 {
                    loc.start - 1
                } else {
                    loc.start as int
                };
                (
                    seq![offense(spec_line_of(src, o.start as int), spec_column_of(src, o.start as int), "Omit pipes for the empty block parameters.".spec_bytes())],
                    seq![Edit { start, end: loc.end as int, replacement: Seq::empty() }],
                )
            } else {
                (Seq::empty(), Seq::empty())
            },
            _ => (Seq::empty(), Seq::empty()),
        },
        _ => (Seq::empty(), Seq::empty()),
    }
}

impl EmptyBlockParameter {
    pub fn name(&self) -> &'static str {
        "Style/EmptyBlockParameter"
    }

    /// The offense and correction at `node`.
    pub fn check_node(&self, source: &SourceFile, node: &Node) -> (r: (Vec<Diagnostic>, Vec<Correction>))
        ensures
            (offenses(r.0@), edits(r.1@)) == spec_check_node(source.text(), *node),
    {
        let mut out: Vec<Diagnostic> = Vec::new();
        let mut fixes: Vec<Correction> = Vec::new();
        match node {
            Node::Block { parameters: Some(p), .. } => match &**p {
                Node::BlockParameters { loc, parameters, locals, opening_loc: Some(o), .. } => {
                    let text = source.as_bytes();
                    let empty = match parameters {
                        None => true,
                        Some(inner) => match &**inner {
                            Node::Parameters { requireds, optionals, rest, posts, keywords, keyword_rest, block, .. } =>
                                requireds.len() == 0 && optionals.len() == 0 && rest.is_none() && posts.len() == 0
                                    && keywords.len() == 0 && keyword_rest.is_none() && block.is_none(),
                            _ => true,
                        },
                    };
                    if eq_str(src_range_exec(text, o.start, o.end), "|") && empty && locals.len() == 0 {
                        let start = if loc.start > 0 && loc.start - 1 < text.len() && text[loc.start - 1] == 32u8 {
                            loc.start - 1
                        } else {
                            loc.start
                        };
                        let (line, column) = source.position(o.start);
                        out.push(diagnostic(line, column, str_bytes("Omit pipes for the empty block parameters.")));
                        let e: Vec<u8> = Vec::new();
                        assert(e@ =~= Seq::<u8>::empty());
                        fixes.push(Correction { start, end: loc.end, replacement: e });
                    }
                },
                _ => {},
            },
            _ => {},
        }
        assert(offenses(out@) =~= spec_check_node(source.text(), *node).0);
        assert(edits(fixes@) =~= spec_check_node(source.text(), *node).1);
        (out, fixes)
    }
}

} // verus!
