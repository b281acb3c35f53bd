//! Style/EndBlock: `END { ... }`, which `at_exit { ... }` replaces.
use vstd::prelude::*;
use vstd::string::StringSliceAdditionalSpecFns;
use crate::ast::Node;
use crate::diagnostic::{diagnostic, edits, offense, offenses, str_bytes, Correction, Diagnostic, Edit, Offense};
use crate::source::{spec_column_of, spec_line_of, SourceFile};

verus! {

/// The cop.
pub struct EndBlock;

pub open spec fn end_block_msg() -> Seq<u8> {
    "Avoid the use of `END` blocks. Use `Kernel#at_exit` instead.".spec_bytes()
}

/// The offense at an `END` block's keyword, and the correction to `at_exit`.
pub open spec fn spec_check_node(src: Seq<u8>, n: Node) -> (Seq<Offense>, Seq<Edit>) {
    match n {
        Node::PostExecution { keyword_loc, .. } => (
            seq![offense(spec_line_of(src, keyword_loc.start as int), spec_column_of(src, keyword_loc.start as int), end_block_msg())],
            seq![Edit { start: keyword_loc.start as int, end: keyword_loc.end as int, replacement: "at_exit".spec_bytes() }],
        ),
        _ => (Seq::empty(), Seq::empty()),
    }
}

impl EndBlock {
    pub fn name(&self) -> &'static str {
        "Style/EndBlock"
    }

    /// The offense and correction at `node`.
    pub fn check_node(&self, source: &SourceFile, node: &Node) -> (r: (Vec<Diagnostic>, Vec<Correction>))
        ensures
            (offenses(r.0@), edits(r.1@)) == spec_check_node(source.text(), *node),
    {
        let mut out: Vec<Diagnostic> = Vec::new();
        let mut fixes: Vec<Correction> = Vec::new();
        match node {
            Node::PostExecution { keyword_loc, .. } => {
                let (line, column) = source.position(keyword_loc.start);
                out.push(diagnostic(line, column, str_bytes("Avoid the use of `END` blocks. Use `Kernel#at_exit` instead.")));
                fixes.push(Correction { start: keyword_loc.start, end: keyword_loc.end, replacement: str_bytes("at_exit") });
            },
            _ => {},
        }
        assert(offenses(out@) =~= spec_check_node(source.text(), *node).0);
        assert(edits(fixes@) =~= spec_check_node(source.text(), *node).1);
        (out, fixes)
    }
}

} // verus!
