//! RSpec/EmptyLineAfterFinalLet: the last `let` of an example group
//! followed directly by code.
//!
//! The line after the `let` (after its heredocs, and after comment lines
//! that follow it) must be blank.  The offense is reported at the `let`'s
//! last line, or at the last `rubocop:enable` comment among the skipped
//! comment lines.
use vstd::prelude::*;
use vstd::string::StringSliceAdditionalSpecFns;
use crate::ast::{flatten, preorder, Node};
use crate::bytes::{contains_seq, contains_str, src_range, src_range_exec};
use crate::cop::rspec::empty_line_after_example::{is_blank_line, is_blank_line_exec, leading_spaces, leading_spaces_exec};
use crate::cop::util::{
    constant_name, find_max_heredoc_end_offset, heredoc_max, is_rspec_example_group, is_rspec_let,
    is_rspec_shared_group, spec_constant_name, spec_is_rspec_example_group, spec_is_rspec_let,
    spec_is_rspec_shared_group,
};
use crate::diagnostic::{diagnostic, offense, offenses, push_bytes, push_str, Diagnostic, Offense};
use crate::source::{line_bytes, line_count, spec_line_of, Loc, SourceFile};

verus! {

/// The cop.
pub struct EmptyLineAfterFinalLet;

/// The line on which a comment ends.
pub open spec fn comment_last_line(src: Seq<u8>, c: Loc) -> int {
    let e = if c.end - 1 > c.start { c.end - 1 } else { c.start as int };
    spec_line_of(src, e)
}

/// Some comment covers line `l`.
pub open spec fn is_comment_line(src: Seq<u8>, comments: Seq<Loc>, l: int) -> bool {
    exists|i: int|
        0 <= i < comments.len() && spec_line_of(src, (#[trigger] comments[i]).start as int) <= l
            <= comment_last_line(src, comments[i])
}

/// Some comment starting on line `l` holds a `rubocop:enable` directive.
pub open spec fn is_enable_line(src: Seq<u8>, comments: Seq<Loc>, l: int) -> bool {
    exists|i: int|
        0 <= i < comments.len() && spec_line_of(src, (#[trigger] comments[i]).start as int) == l
            && contains_seq(src_range(src, comments[i].start as int, comments[i].end as int), "rubocop:enable".spec_bytes())
}

/// From line `line` on, skip the comment lines that follow; the last line
/// reached and the last `rubocop:enable` line among the skipped ones.
pub open spec fn skip_comment_lines(src: Seq<u8>, comments: Seq<Loc>, line: int, enable: Option<int>) -> (int, Option<int>)
    decreases line_count(src) - line,
{
    if line < line_count(src) && is_comment_line(src, comments, line + 1) {
        skip_comment_lines(
            src,
            comments,
            line + 1,
            if is_enable_line(src, comments, line + 1) { Some(line + 1) } else { enable },
        )
    } else {
        (line, enable)
    }
}

/// The line on which the `let` ends, counting its heredocs.
pub open spec fn let_end_line(src: Seq<u8>, n: Node) -> int {
    let l = n.spec_loc();
    let h = heredoc_max(src, n);
    let max_end = if h > l.end { h } else { l.end as int };
    let e = if max_end - 1 > l.start { max_end - 1 } else { l.start as int };
    spec_line_of(src, e)
}

/// The line to report when no blank line separates the `let` from what
/// follows.
pub open spec fn missing_separating_line(src: Seq<u8>, comments: Seq<Loc>, n: Node) -> Option<int> {
    let end_line = let_end_line(src, n);
    let (line, enable) = skip_comment_lines(src, comments, end_line, None);
    if 1 <= line + 1 <= line_count(src) && !is_blank_line(line_bytes(src, line + 1)) {
        Some(
            match enable {
                Some(e) => e,
                None => end_line,
            },
        )
    } else {
        None
    }
}

/// An example group (not a shared group), on no receiver or on `RSpec`.
pub open spec fn is_example_group_call(n: Node) -> bool {
    n matches Node::Call { name, receiver, .. } && spec_is_rspec_example_group(name@)
        && !spec_is_rspec_shared_group(name@) && match receiver {
        Some(r) => spec_constant_name(*r) == Some("RSpec".spec_bytes()),
        None => true,
    }
}

/// The statements of the call's `do`/`{` block.
pub open spec fn group_statements(n: Node) -> Option<Seq<Node>> {
    match n {
        Node::Call { block: Some(b), .. } => match *b {
            Node::Block { body: Some(body), .. } => match *body {
                Node::Statements { body: stmts, .. } => Some(stmts@),
                _ => None,
            },
            _ => None,
        },
        _ => None,
    }
}

/// A `let`/`let!` without receiver.
pub open spec fn is_let(s: Node) -> bool {
    s matches Node::Call { receiver: None, name, .. } && spec_is_rspec_let(name@)
}

/// The index of the last `let` among `stmts`.
pub open spec fn last_let(stmts: Seq<Node>) -> Option<int>
    decreases stmts.len(),
{
    if stmts.len() == 0 {
        None
    } else if is_let(stmts.last()) {
        Some(stmts.len() - 1)
    } else {
        last_let(stmts.drop_last())
    }
}

/// The name shown in the message: the `let` method's name, or `let` when
/// it is not UTF-8.
pub open spec fn shown_name(s: Node) -> Seq<u8> {
    match s {
        Node::Call { name, .. } => if vstd::utf8::valid_utf8(name@) {
            name@
        } else {
            "let".spec_bytes()
        },
        _ => "let".spec_bytes(),
    }
}

/// The offense for the example group `n`, if its last `let` is followed by
/// another statement without a blank line between them.
pub open spec fn group_offense(src: Seq<u8>, comments: Seq<Loc>, n: Node) -> Seq<Offense> {
    if is_example_group_call(n) && group_statements(n) is Some {
        let stmts = group_statements(n)->0;
        match last_let(stmts) {
            Some(i) => if i + 1 < stmts.len() {
                match missing_separating_line(src, comments, stmts[i]) {
                    Some(rl) => seq![offense(
                        rl,
                        if 1 <= rl <= line_count(src) { leading_spaces(line_bytes(src, rl)) } else { 0 },
                        "Add an empty line after the last `".spec_bytes() + shown_name(stmts[i]) + "`.".spec_bytes(),
                    )],
                    None => Seq::empty(),
                }
            } else {
                Seq::empty()
            },
            None => Seq::empty(),
        }
    } else {
        Seq::empty()
    }
}

/// The offenses of the groups among `nodes`, in order.
pub open spec fn all_offenses(src: Seq<u8>, comments: Seq<Loc>, nodes: Seq<Node>) -> Seq<Offense>
    decreases nodes.len(),
{
    if nodes.len() == 0 {
        Seq::empty()
    } else {
        all_offenses(src, comments, nodes.drop_last()) + group_offense(src, comments, nodes.last())
    }
}

fn is_comment_line_exec(source: &SourceFile, comments: &Vec<Loc>, l: usize) -> (r: bool)
    ensures
        r == is_comment_line(source.text(), comments@, l as int),
{
    let mut i: usize = 0;
    while i < comments.len()
        invariant
            i <= comments@.len(),
            forall|j: int|
                0 <= j < i ==> !(spec_line_of(source.text(), (#[trigger] comments@[j]).start as int) <= l
                    <= comment_last_line(source.text(), comments@[j])),
        decreases comments@.len() - i,
    {
        let c = comments[i];
        let e = if c.end > 0 && c.end - 1 > c.start { c.end - 1 } else { c.start };
        let (a, _) = source.position(c.start);
        let (b, _) = source.position(e);
        if a <= l && l <= b {
            return true;
        }
        i = i + 1;
    }
    false
}

fn is_enable_line_exec(source: &SourceFile, comments: &Vec<Loc>, l: usize) -> (r: bool)
    ensures
        r == is_enable_line(source.text(), comments@, l as int),
{
    let src = source.as_bytes();
    let mut i: usize = 0;
    while i < comments.len()
        invariant
            i <= comments@.len(),
            src@ == source.text(),
            forall|j: int|
                0 <= j < i ==> !(spec_line_of(source.text(), (#[trigger] comments@[j]).start as int) == l
                    && contains_seq(src_range(source.text(), comments@[j].start as int, comments@[j].end as int), "rubocop:enable".spec_bytes())),
        decreases comments@.len() - i,
    {
        let c = comments[i];
        let (a, _) = source.position(c.start);
        if a == l && contains_str(src_range_exec(src, c.start, c.end), "rubocop:enable") {
            return true;
        }
        i = i + 1;
    }
    false
}

fn missing_separating_line_exec(source: &SourceFile, comments: &Vec<Loc>, n: &Node) -> (r: Option<usize>)
    ensures
        match r {
            Some(l) => missing_separating_line(source.text(), comments@, *n) == Some(l as int),
            None => missing_separating_line(source.text(), comments@, *n) is None,
        },
{
    let ghost src = source.text();
    let l = n.loc();
    let h = find_max_heredoc_end_offset(source.as_bytes(), n);
    let max_end = if h > l.end { h } else { l.end };
    let e = if max_end > 0 && max_end - 1 > l.start { max_end - 1 } else { l.start };
    let (end_line, _) = source.position(e);
    let count = source.line_count();
    let mut line = end_line;
    let mut enable: Option<usize> = None;
    while line < count && is_comment_line_exec(source, comments, line + 1)
        invariant
            count == line_count(src),
            src == source.text(),
            skip_comment_lines(src, comments@, end_line as int, None) == skip_comment_lines(
                src,
                comments@,
                line as int,
                match enable {
                    Some(v) => Some(v as int),
                    None => None,
                },
            ),
        decreases count - line,
    {
        line = line + 1;
        if is_enable_line_exec(source, comments, line) {
            enable = Some(line);
        }
    }
    if line < count {
        match source.line_at(line + 1) {
            Some(next) => if is_blank_line_exec(next.as_slice()) {
                None
            } else {
                match enable {
                    Some(v) => Some(v),
                    None => Some(end_line),
                }
            },
            None => None,
        }
    } else {
        None
    }
}

impl EmptyLineAfterFinalLet {
    pub fn name(&self) -> &'static str {
        "RSpec/EmptyLineAfterFinalLet"
    }

    /// The offense for the call `n`, if it is such an example group.
    fn check_group(&self, source: &SourceFile, comments: &Vec<Loc>, n: &Node, out: &mut Vec<Diagnostic>)
        ensures
            offenses(final(out)@) == offenses(old(out)@) + group_offense(source.text(), comments@, *n),
    {
        let ghost o = offenses(out@);
        let ghost src = source.text();
        let ok = match n {
            Node::Call { name, receiver, .. } => is_rspec_example_group(name.as_slice())
                && !is_rspec_shared_group(name.as_slice()) && match receiver {
                Some(r) => match constant_name(r) {
                    Some(c) => crate::bytes::eq_str(c.as_slice(), "RSpec"),
                    None => false,
                },
                None => true,
            },
            _ => false,
        };
        if !ok {
            assert(offenses(out@) =~= o + group_offense(src, comments@, *n));
            return;
        }
        let stmts: &Vec<Node> = match n {
            Node::Call { block: Some(b), .. } => match &**b {
                Node::Block { body: Some(body), .. } => match &**body {
                    Node::Statements { body: stmts, .. } => stmts,
                    _ => {
                        assert(offenses(out@) =~= o + group_offense(src, comments@, *n));
                        return;
                    },
                },
                _ => {
                    assert(offenses(out@) =~= o + group_offense(src, comments@, *n));
                    return;
                },
            },
            _ => {
                assert(offenses(out@) =~= o + group_offense(src, comments@, *n));
                return;
            },
        };
        let ghost ss = stmts@;
        assert(group_statements(*n) == Some(ss));
        // the last `let`
        let mut last: Option<usize> = None;
        let mut i: usize = 0;
        while i < stmts.len()
            invariant
                i <= ss.len(),
                ss == stmts@,
                match last {
                    Some(k) => last_let(ss.take(i as int)) == Some(k as int),
                    None => last_let(ss.take(i as int)) is None,
                },
            decreases ss.len() - i,
        {
            assert(ss.take(i + 1).drop_last() =~= ss.take(i as int));
            assert(ss.take(i + 1).last() == ss[i as int]);
            let is_l = match &stmts[i] {
                Node::Call { receiver: None, name, .. } => is_rspec_let(name.as_slice()),
                _ => false,
            };
            if is_l {
                last = Some(i);
            }
            i = i + 1;
        }
        assert(ss.take(ss.len() as int) =~= ss);
        let k = match last {
            Some(k) => k,
            None => {
                assert(offenses(out@) =~= o + group_offense(src, comments@, *n));
                return;
            },
        };
        proof {
            lemma_last_let_bound(ss);
        }
        if k + 1 >= stmts.len() {
            assert(offenses(out@) =~= o + group_offense(src, comments@, *n));
            return;
        }
        let s = &stmts[k];
        let rl = match missing_separating_line_exec(source, comments, s) {
            Some(rl) => rl,
            None => {
                assert(offenses(out@) =~= o + group_offense(src, comments@, *n));
                return;
            },
        };
        let mut m: Vec<u8> = Vec::new();
        push_str(&mut m, "Add an empty line after the last `");
        match s {
            Node::Call { name, .. } => if crate::bytes::utf8_is_valid(name.as_slice()) {
                push_bytes(&mut m, name.as_slice());
            } else {
                push_str(&mut m, "let");
            },
            _ => push_str(&mut m, "let"),
        }
        push_str(&mut m, "`.");
        let col = match source.line_at(rl) {
            Some(b) => leading_spaces_exec(b.as_slice()),
            None => 0,
        };
        out.push(diagnostic(rl, col, m));
        assert(offenses(out@) =~= o + group_offense(src, comments@, *n));
    }

    /// The offenses in the tree rooted at `root`, whose comments are at
    /// `comments`, in traversal order.
    pub fn check_source(&self, source: &SourceFile, root: &Node, comments: &Vec<Loc>) -> (r: Vec<Diagnostic>)
        ensures
            offenses(r@) == all_offenses(source.text(), comments@, flatten(*root)),
    {
        let nodes = preorder(root);
        let ghost ns = nodes@.map_values(|x: &Node| *x);
        let mut out: Vec<Diagnostic> = Vec::new();
        let mut i: usize = 0;
        assert(offenses(out@) =~= all_offenses(source.text(), comments@, ns.take(0)));
        while i < nodes.len()
            invariant
                i <= nodes@.len(),
                ns == nodes@.map_values(|x: &Node| *x),
                ns == flatten(*root),
                offenses(out@) == all_offenses(source.text(), comments@, ns.take(i as int)),
            decreases nodes@.len() - i,
        {
            assert(ns.take(i + 1).drop_last() =~= ns.take(i as int));
            assert(ns[i as int] == *nodes[i as int]);
            self.check_group(source, comments, nodes[i], &mut out);
            i = i + 1;
        }
        assert(ns.take(nodes@.len() as int) =~= ns);
        out
    }
}

proof fn lemma_last_let_bound(s: Seq<Node>)
    ensures
        last_let(s) matches Some(k) ==> 0 <= k < s.len() && is_let(s[k]),
    decreases s.len(),
{
    if s.len() > 0 && !is_let(s.last()) {
        lemma_last_let_bound(s.drop_last());
        match last_let(s.drop_last()) {
            Some(k) => assert(s.drop_last()[k] == s[k]),
            None => {},
        }
    }
}

} // verus!
