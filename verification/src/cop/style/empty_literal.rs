//! Style/EmptyLiteral: `Array.new`, `Hash.new`, `String.new` in place of
//! `[]`, `{}`, `''`.
//!
//! `String.new` is flagged only when the file sets
//! `frozen_string_literal: false`; a constructor inside the default-value
//! block of another `Array.new`/`Hash.new` is not flagged.
use vstd::prelude::*;
use vstd::string::StringSliceAdditionalSpecFns;
use crate::ast::{flatten, preorder, NamedKind, Node};
use crate::bytes::{
    eq_str, find_from, find_from_exec, lossy_utf8, lower, skip_leading, skip_leading_exec,
    src_range, src_range_exec, starts_with, starts_with_str, to_ascii_lower, utf8_lossy,
};
use crate::diagnostic::{offense, offenses, push_bytes, push_str, Diagnostic, Offense};
use crate::source::{spec_column_of, spec_line_of, split_lines, Loc, SourceFile};

verus! {

/// The cop.
pub struct EmptyLiteral;

/// What a line says of `frozen_string_literal:` (lower-cased): whether the
/// value after it is `false`, or nothing when the line does not mention it.
pub open spec fn frozen_marker(line: Seq<u8>) -> Option<bool> {
    let low = lower(line);
    match find_from(low, "frozen_string_literal:".spec_bytes(), 0) {
        Some(p) => Some(
            starts_with(
                skip_leading(low.subrange(p + 22, low.len() as int), 32u8),
                "false".spec_bytes(),
            ),
        ),
        None => None,
    }
}

/// Among lines `i..k`, what the first that mentions the magic comment says.
pub open spec fn frozen_false_from(lines: Seq<Seq<u8>>, i: int, k: int) -> bool
    decreases k - i,
{
    if i >= k || i >= lines.len() || i < 0 {
        false
    } else {
        match frozen_marker(lines[i]) {
            Some(b) => b,
            None => frozen_false_from(lines, i + 1, k),
        }
    }
}

/// Whether one of the first three lines sets `frozen_string_literal: false`.
pub open spec fn spec_has_frozen_string_literal_false(src: Seq<u8>) -> bool {
    frozen_false_from(split_lines(src), 0, 3)
}

/// The constant a call is made on, when it is `Name` or `::Name`.
pub open spec fn receiver_constant(n: Node) -> Option<Seq<u8>> {
    match n {
        Node::Call { receiver: Some(r), .. } => match *r {
            Node::Named { kind: NamedKind::ConstantRead, name, .. } => Some(name@),
            Node::ConstantPath { parent: None, name, .. } => if name@.len() > 0 {
                Some(name@)
            } else {
                None
            },
            _ => None,
        },
        _ => None,
    }
}

/// Whether `n` is `c.new` (or `::c.new`).
pub open spec fn is_matching_constructor_call(n: Node, c: Seq<u8>) -> bool {
    match n {
        Node::Call { name, receiver: Some(r), .. } => name@ == "new".spec_bytes()
            && r.is_top_constant(c),
        _ => false,
    }
}

/// Whether `n` is a `c.new` call whose block body contains `target`.
pub open spec fn wraps(n: Node, c: Seq<u8>, target: Loc) -> bool {
    is_matching_constructor_call(n, c) && match n {
        Node::Call { block: Some(b), .. } => match *b {
            Node::Block { body: Some(body), .. } => body.spec_loc().start <= target.start
                && target.end <= body.spec_loc().end,
            _ => false,
        },
        _ => false,
    }
}

/// Whether some `c.new { ... }` in the tree has `target` inside its block body.
pub open spec fn wrapped_by_constructor_block(root: Node, c: Seq<u8>, target: Loc) -> bool {
    exists|i: int| 0 <= i < flatten(root).len() && wraps(#[trigger] flatten(root)[i], c, target)
}

/// The message for an empty constructor of constant `c`, or none.
pub open spec fn literal_message(src: Seq<u8>, n: Node, c: Seq<u8>) -> Option<Seq<u8>> {
    let text = utf8_lossy(src_range(src, n.spec_loc().start as int, n.spec_loc().end as int));
    if c == "Array".spec_bytes() {
        Some("Use array literal `[]` instead of `".spec_bytes() + text + "`.".spec_bytes())
    } else if c == "Hash".spec_bytes() {
        Some("Use hash literal `{}` instead of `".spec_bytes() + text + "`.".spec_bytes())
    } else if c == "String".spec_bytes() && n->Call_name@ == "new".spec_bytes() {
        Some("Use string literal `''` instead of `String.new`.".spec_bytes())
    } else {
        None
    }
}

/// The offense at `node` in the tree `root`, if any.
pub open spec fn spec_check_node(src: Seq<u8>, root: Node, n: Node) -> Seq<Offense> {
    if n matches Node::Call { name, block, .. } && (name@ == "new".spec_bytes() || name@
        == "[]".spec_bytes()) && receiver_constant(n) is Some && n.call_args().len() == 0
        && block is None {
        let c = receiver_constant(n)->0;
        if (c == "Array".spec_bytes() || c == "Hash".spec_bytes()) && wrapped_by_constructor_block(
            root,
            c,
            n.spec_loc(),
        ) {
            Seq::empty()
        } else if c == "String".spec_bytes() && n->Call_name@ == "new".spec_bytes()
            && !spec_has_frozen_string_literal_false(src) {
            Seq::empty()
        } else {
            match literal_message(src, n, c) {
                Some(m) => seq![
                    offense(
                        spec_line_of(src, n.spec_loc().start as int),
                        spec_column_of(src, n.spec_loc().start as int),
                        m,
                    ),
                ],
                None => Seq::empty(),
            }
        }
    } else {
        Seq::empty()
    }
}

fn frozen_marker_exec(line: &[u8]) -> (r: Option<bool>)
    ensures
        r == frozen_marker(line@),
{
    let low = to_ascii_lower(line);
    let marker = "frozen_string_literal:".as_bytes();
    match find_from_exec(low.as_slice(), marker, 0) {
        Some(p) => {
            proof {
                reveal_strlit("frozen_string_literal:");
                broadcast use vstd::string::group_string_axioms;
                assert(vstd::string::is_ascii("frozen_string_literal:"));
                assert("frozen_string_literal:".spec_bytes().len() == 22);
                crate::bytes::lemma_find_from(low@, marker@, 0);
                assert(p + marker@.len() <= low@.len());
                assert(marker@.len() == 22);
            }
            let ll = low.len();
            let after = crate::bytes::subslice(low.as_slice(), p + marker.len(), ll);
            let trimmed = skip_leading_exec(after, 32u8);
            Some(starts_with_str(trimmed, "false"))
        },
        None => None,
    }
}

/// Whether one of the first three lines sets `frozen_string_literal: false`.
pub fn has_frozen_string_literal_false(source: &SourceFile) -> (r: bool)
    ensures
        r == spec_has_frozen_string_literal_false(source.text()),
{
    let ghost lines = split_lines(source.text());
    let mut k: usize = 1;
    while k <= 3
        invariant
            1 <= k <= 4,
            lines == split_lines(source.text()),
            frozen_false_from(lines, 0, 3) == frozen_false_from(lines, k - 1, 3),
        decreases 4 - k,
    {
        match source.line_at(k) {
            Some(line) => {
                assert(lines[k - 1] == line@);
                match frozen_marker_exec(line.as_slice()) {
                    Some(b) => {
                        return b;
                    },
                    None => {},
                }
            },
            None => {
                return false;
            },
        }
        k = k + 1;
    }
    false
}

fn receiver_constant_exec(n: &Node) -> (r: Option<&Vec<u8>>)
    ensures
        match r {
            Some(c) => receiver_constant(*n) == Some(c@),
            None => receiver_constant(*n) is None,
        },
{
    match n {
        Node::Call { receiver: Some(r), .. } => match &**r {
            Node::Named { kind: NamedKind::ConstantRead, name, .. } => Some(name),
            Node::ConstantPath { parent: None, name, .. } => if name.len() > 0 {
                Some(name)
            } else {
                None
            },
            _ => None,
        },
        _ => None,
    }
}

fn wraps_exec(n: &Node, c: &[u8], target: Loc) -> (r: bool)
    ensures
        r == wraps(*n, c@, target),
{
    match n {
        Node::Call { name, receiver: Some(r), block: Some(b), .. } => {
            if !eq_str(name.as_slice(), "new") {
                return false;
            }
            let top = match &**r {
                Node::Named { kind: NamedKind::ConstantRead, name: m, .. } => crate::bytes::bytes_eq(m.as_slice(), c),
                Node::ConstantPath { parent: None, name: m, .. } => crate::bytes::bytes_eq(m.as_slice(), c),
                _ => false,
            };
            if !top {
                return false;
            }
            match &**b {
                Node::Block { body: Some(body), .. } => {
                    let l = body.loc();
                    l.start <= target.start && target.end <= l.end
                },
                _ => false,
            }
        },
        _ => false,
    }
}

fn wrapped_exec(root: &Node, c: &[u8], target: Loc) -> (r: bool)
    ensures
        r == wrapped_by_constructor_block(*root, c@, target),
{
    let nodes = preorder(root);
    let ghost ns = nodes@.map_values(|x: &Node| *x);
    let mut i: usize = 0;
    while i < nodes.len()
        invariant
            i <= nodes@.len(),
            ns == nodes@.map_values(|x: &Node| *x),
            ns == flatten(*root),
            forall|j: int| 0 <= j < i ==> !wraps(#[trigger] ns[j], c@, target),
        decreases nodes@.len() - i,
    {
        if wraps_exec(nodes[i], c, target) {
            assert(wraps(ns[i as int], c@, target));
            return true;
        }
        i = i + 1;
    }
    false
}

impl EmptyLiteral {
    pub fn name(&self) -> &'static str {
        "Style/EmptyLiteral"
    }

    /// The offense at `node` (a node of the tree `root`), if it is an empty
    /// `Array`, `Hash` or `String` constructor call.
    pub fn check_node(&self, source: &SourceFile, root: &Node, node: &Node) -> (r: Vec<Diagnostic>)
        ensures
            offenses(r@) == spec_check_node(source.text(), *root, *node),
    {
        let mut out: Vec<Diagnostic> = Vec::new();
        let (is_new, no_block) = match node {
            Node::Call { name, block, .. } => (eq_str(name.as_slice(), "new"), block.is_none()),
            _ => (false, false),
        };
        let is_index = match node {
            Node::Call { name, .. } => eq_str(name.as_slice(), "[]"),
            _ => false,
        };
        if !(is_new || is_index) || !no_block {
            assert(offenses(out@) =~= spec_check_node(source.text(), *root, *node));
            return out;
        }
        let c = match receiver_constant_exec(node) {
            Some(c) => c,
            None => {
                assert(offenses(out@) =~= spec_check_node(source.text(), *root, *node));
                return out;
            },
        };
        let has_args = match node {
            Node::Call { arguments: Some(a), .. } => match &**a {
                Node::Arguments { arguments, .. } => arguments.len() > 0,
                _ => false,
            },
            _ => false,
        };
        if has_args {
            assert(offenses(out@) =~= spec_check_node(source.text(), *root, *node));
            return out;
        }
        let is_array = eq_str(c.as_slice(), "Array");
        let is_hash = eq_str(c.as_slice(), "Hash");
        let is_string = eq_str(c.as_slice(), "String");
        if (is_array || is_hash) && wrapped_exec(root, c.as_slice(), node.loc()) {
            assert(offenses(out@) =~= spec_check_node(source.text(), *root, *node));
            return out;
        }
        if is_string && is_new && !has_frozen_string_literal_false(source) {
            assert(offenses(out@) =~= spec_check_node(source.text(), *root, *node));
            return out;
        }
        let l = node.loc();
        let mut msg: Vec<u8> = Vec::new();
        if is_array || is_hash {
            let text = lossy_utf8(src_range_exec(source.as_bytes(), l.start, l.end));
            if is_array {
                push_str(&mut msg, "Use array literal `[]` instead of `");
            } else {
                push_str(&mut msg, "Use hash literal `{}` instead of `");
            }
            push_bytes(&mut msg, text.as_slice());
            push_str(&mut msg, "`.");
        } else if is_string && is_new {
            push_str(&mut msg, "Use string literal `''` instead of `String.new`.");
        } else {
            assert(offenses(out@) =~= spec_check_node(source.text(), *root, *node));
            return out;
        }
        let (line, column) = source.position(l.start);
        out.push(crate::diagnostic::diagnostic(line, column, msg));
        assert(offenses(out@) =~= spec_check_node(source.text(), *root, *node));
        out
    }
}

} // verus!
