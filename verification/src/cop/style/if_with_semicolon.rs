//! Style/IfWithSemicolon: `if cond; body` and `unless cond; body`.
//!
//! Every `if`/`unless` with keywords (not the modifier form, not `elsif`) whose
//! condition is followed by `;` is flagged, except an `if` written as
//! `else if`, and any `if`/`unless` nested inside one already flagged.
use vstd::prelude::*;
use vstd::string::StringSliceAdditionalSpecFns;
use crate::ast::{flatten, preorder, Node};
use crate::bytes::{eq_str, src_range, src_range_exec, utf8_is_valid};
use crate::diagnostic::{offense, offenses, push_bytes, push_str, Diagnostic, Offense};
use crate::source::{clamp, line_start, spec_column_of, spec_line_of, Loc, SourceFile};

verus! {

/// The cop.
pub struct IfWithSemicolon;

/// Whether `s` holds a `;` before its first line break or `#`.
pub open spec fn semicolon_before_break(s: Seq<u8>) -> bool
    decreases s.len(),
{
    if s.len() == 0 {
        false
    } else if s[0] == 10u8 || s[0] == 35u8 {
        false
    } else if s[0] == 59u8 {
        true
    } else {
        semicolon_before_break(s.drop_first())
    }
}

/// Whether the text between the end of the condition and the start of the
/// body holds a `;` on the condition's line, outside a comment.
pub open spec fn spec_has_semicolon_between(src: Seq<u8>, pred_end: int, body_start: int) -> bool {
    pred_end < body_start && semicolon_before_break(src_range(src, pred_end, body_start))
}

/// `s` without trailing spaces and tabs.
pub open spec fn rtrim_blank(s: Seq<u8>) -> Seq<u8>
    decreases s.len(),
{
    if s.len() > 0 && (s.last() == 32u8 || s.last() == 9u8) {
        rtrim_blank(s.drop_last())
    } else {
        s
    }
}

/// Whether the keyword at `kw` is preceded on its line by `else` (an
/// `else if`), the `else` standing at the line start or after a blank or `;`.
pub open spec fn spec_is_preceded_by_else(src: Seq<u8>, kw: int) -> bool {
    let k = clamp(src, kw);
    let t = rtrim_blank(src.subrange(line_start(src, k), k));
    &&& kw != 0
    &&& t.len() >= 4
    &&& t.subrange(t.len() - 4, t.len() as int) == "else".spec_bytes()
    &&& (t.len() == 4 || {
        let b = t[t.len() - 5];
        b == 32u8 || b == 9u8 || b == 59u8 || b == 10u8
    })
}

/// The condition's source text, or `...` when it is not UTF-8.
pub open spec fn cond_text(src: Seq<u8>, pred: Node) -> Seq<u8> {
    let t = src_range(src, pred.spec_loc().start as int, pred.spec_loc().end as int);
    if vstd::utf8::valid_utf8(t) {
        t
    } else {
        "...".spec_bytes()
    }
}

/// Whether the `then` keyword is `;`, or, without one, whether a `;`
/// separates the condition from the body.
pub open spec fn uses_semicolon(src: Seq<u8>, then_loc: Option<Loc>, pred: Node, body_start: int) -> bool {
    match then_loc {
        Some(t) => src_range(src, t.start as int, t.end as int) == ";".spec_bytes(),
        None => spec_has_semicolon_between(src, pred.spec_loc().end as int, body_start),
    }
}

/// Where the body of an `if` starts: its statements, else its `elsif`/`else`,
/// else its `end`.
pub open spec fn if_body_start(n: Node) -> int {
    match n {
        Node::If { statements, subsequent, end_keyword_loc, .. } => match statements {
            Some(s) => s.spec_loc().start as int,
            None => match subsequent {
                Some(e) => e.spec_loc().start as int,
                None => match end_keyword_loc {
                    Some(l) => l.start as int,
                    None => 0,
                },
            },
        },
        Node::Unless { statements, end_keyword_loc, .. } => match statements {
            Some(s) => s.spec_loc().start as int,
            None => match end_keyword_loc {
                Some(l) => l.start as int,
                None => 0,
            },
        },
        _ => 0,
    }
}

#[verifier::opaque]
/// Whether node `n` is flagged when nodes starting before `ignored_end`
/// are suppressed.
pub open spec fn flags(src: Seq<u8>, n: Node, ignored_end: int) -> bool {
    match n {
        Node::If { loc, if_keyword_loc: Some(kw), predicate, then_keyword_loc, end_keyword_loc, .. } => {
            &&& src_range(src, kw.start as int, kw.end as int) == "if".spec_bytes()
            &&& end_keyword_loc is Some
            &&& !spec_is_preceded_by_else(src, kw.start as int)
            &&& loc.start >= ignored_end
            &&& uses_semicolon(src, then_keyword_loc, *predicate, if_body_start(n))
        },
        Node::Unless { loc, predicate, then_keyword_loc, end_keyword_loc, .. } => {
            &&& end_keyword_loc is Some
            &&& loc.start >= ignored_end
            &&& uses_semicolon(src, then_keyword_loc, *predicate, if_body_start(n))
        },
        _ => false,
    }
}

/// The offense for a flagged node.
#[verifier::opaque]
pub open spec fn semicolon_offense(src: Seq<u8>, n: Node) -> Offense {
    match n {
        Node::If { loc, predicate, .. } => offense(
            spec_line_of(src, loc.start as int),
            spec_column_of(src, loc.start as int),
            "Do not use `if ".spec_bytes() + cond_text(src, *predicate)
                + ";` - use a newline instead.".spec_bytes(),
        ),
        Node::Unless { loc, predicate, .. } => offense(
            spec_line_of(src, loc.start as int),
            spec_column_of(src, loc.start as int),
            "Do not use `unless ".spec_bytes() + cond_text(src, *predicate)
                + ";` - use a newline instead.".spec_bytes(),
        ),
        _ => offense(0, 0, Seq::empty()),
    }
}

/// The offenses among `nodes` (visited in order) and the end of the last
/// flagged node, below which nodes are suppressed.
pub open spec fn scan(src: Seq<u8>, nodes: Seq<Node>) -> (Seq<Offense>, int)
    decreases nodes.len(),
{
    if nodes.len() == 0 {
        (Seq::empty(), 0)
    } else {
        let prev = scan(src, nodes.drop_last());
        let n = nodes.last();
        if flags(src, n, prev.1) {
            (prev.0.push(semicolon_offense(src, n)), n.spec_loc().end as int)
        } else {
            prev
        }
    }
}

/// The offenses in the tree rooted at `root`.
pub open spec fn spec_check_source(src: Seq<u8>, root: Node) -> Seq<Offense> {
    scan(src, flatten(root)).0
}

/// Whether `src[pred_end..body_start)` holds a `;` before a line break or `#`.
pub fn has_semicolon_between(source: &SourceFile, pred_end: usize, body_start: usize) -> (r: bool)
    ensures
        r == spec_has_semicolon_between(source.text(), pred_end as int, body_start as int),
{
    if pred_end >= body_start {
        return false;
    }
    let s = src_range_exec(source.as_bytes(), pred_end, body_start);
    let mut i: usize = 0;
    assert(s@.subrange(0, s@.len() as int) =~= s@);
    while i < s.len()
        invariant
            i <= s@.len(),
            pred_end < body_start,
            s@ == src_range(source.text(), pred_end as int, body_start as int),
            semicolon_before_break(s@) == semicolon_before_break(s@.subrange(i as int, s@.len() as int)),
        decreases s@.len() - i,
    {
        assert(s@.subrange(i as int, s@.len() as int).drop_first() =~= s@.subrange(i + 1, s@.len() as int));
        let ghost t = s@.subrange(i as int, s@.len() as int);
        assert(t.len() > 0 && t[0] == s@[i as int]);
        if s[i] == 10u8 || s[i] == 35u8 {
            assert(!semicolon_before_break(t));
            return false;
        }
        if s[i] == 59u8 {
            assert(semicolon_before_break(t));
            return true;
        }
        i = i + 1;
    }
    false
}

/// Whether the keyword at `if_kw_offset` is preceded by `else` on its line.
pub fn is_preceded_by_else(source: &SourceFile, if_kw_offset: usize) -> (r: bool)
    ensures
        r == spec_is_preceded_by_else(source.text(), if_kw_offset as int),
{
    if if_kw_offset == 0 {
        return false;
    }
    let content = source.as_bytes();
    let k = if if_kw_offset > content.len() { content.len() } else { if_kw_offset };
    let start = source.line_start_from(k);
    proof {
        crate::source::lemma_line_start_bounds(source.text(), k as int);
    }
    let before = crate::bytes::subslice(content, start, k);
    let mut n = before.len();
    assert(before@.subrange(0, before@.len() as int) =~= before@);
    while n > 0 && (before[n - 1] == 32u8 || before[n - 1] == 9u8)
        invariant
            n <= before@.len(),
            rtrim_blank(before@) == rtrim_blank(before@.subrange(0, n as int)),
        decreases n,
    {
        assert(before@.subrange(0, n as int).drop_last() =~= before@.subrange(0, n - 1));
        n = n - 1;
    }
    let t = crate::bytes::subslice(before, 0, n);
    assert(t@ =~= rtrim_blank(before@));
    if t.len() < 4 {
        return false;
    }
    let tail = crate::bytes::subslice(t, t.len() - 4, t.len());
    if !eq_str(tail, "else") {
        return false;
    }
    if t.len() == 4 {
        return true;
    }
    let b = t[t.len() - 5];
    b == 32u8 || b == 9u8 || b == 59u8 || b == 10u8
}

fn cond_text_exec(source: &SourceFile, pred: &Node) -> (r: Vec<u8>)
    ensures
        r@ == cond_text(source.text(), *pred),
{
    let l = pred.loc();
    let t = src_range_exec(source.as_bytes(), l.start, l.end);
    let mut v: Vec<u8> = Vec::new();
    if utf8_is_valid(t) {
        push_bytes(&mut v, t);
    } else {
        push_str(&mut v, "...");
    }
    assert(v@ =~= cond_text(source.text(), *pred));
    v
}

fn uses_semicolon_exec(source: &SourceFile, then_loc: Option<Loc>, pred: &Node, body_start: usize) -> (r: bool)
    ensures
        r == uses_semicolon(source.text(), then_loc, *pred, body_start as int),
{
    match then_loc {
        Some(t) => eq_str(src_range_exec(source.as_bytes(), t.start, t.end), ";"),
        None => has_semicolon_between(source, pred.loc().end, body_start),
    }
}

fn body_start_exec(n: &Node) -> (r: usize)
    ensures
        r == if_body_start(*n),
{
    match n {
        Node::If { statements, subsequent, end_keyword_loc, .. } => match statements {
            Some(s) => s.loc().start,
            None => match subsequent {
                Some(e) => e.loc().start,
                None => match end_keyword_loc {
                    Some(l) => l.start,
                    None => 0,
                },
            },
        },
        Node::Unless { statements, end_keyword_loc, .. } => match statements {
            Some(s) => s.loc().start,
            None => match end_keyword_loc {
                Some(l) => l.start,
                None => 0,
            },
        },
        _ => 0,
    }
}

fn flags_exec(source: &SourceFile, n: &Node, ignored_end: usize) -> (r: bool)
    ensures
        r == flags(source.text(), *n, ignored_end as int),
        r ==> (n is If || n is Unless),
{
    reveal(flags);
    match n {
        Node::If { loc, if_keyword_loc: Some(kw), predicate, then_keyword_loc, end_keyword_loc, .. } => {
            eq_str(src_range_exec(source.as_bytes(), kw.start, kw.end), "if")
                && end_keyword_loc.is_some() && !is_preceded_by_else(source, kw.start)
                && loc.start >= ignored_end && uses_semicolon_exec(
                source,
                *then_keyword_loc,
                predicate,
                body_start_exec(n),
            )
        },
        Node::Unless { loc, predicate, then_keyword_loc, end_keyword_loc, .. } => {
            end_keyword_loc.is_some() && loc.start >= ignored_end && uses_semicolon_exec(
                source,
                *then_keyword_loc,
                predicate,
                body_start_exec(n),
            )
        },
        _ => false,
    }
}

fn offense_exec(source: &SourceFile, n: &Node) -> (r: Diagnostic)
    requires
        n is If || n is Unless,
    ensures
        r@ == semicolon_offense(source.text(), *n),
{
    reveal(semicolon_offense);
    let (line, column) = source.position(n.loc().start);
    let mut msg: Vec<u8> = Vec::new();
    match n {
        Node::If { predicate, .. } => {
            push_str(&mut msg, "Do not use `if ");
            let c = cond_text_exec(source, predicate);
            push_bytes(&mut msg, c.as_slice());
        },
        Node::Unless { predicate, .. } => {
            push_str(&mut msg, "Do not use `unless ");
            let c = cond_text_exec(source, predicate);
            push_bytes(&mut msg, c.as_slice());
        },
        _ => {},
    }
    push_str(&mut msg, ";` - use a newline instead.");
    crate::diagnostic::diagnostic(line, column, msg)
}

impl IfWithSemicolon {
    pub fn name(&self) -> &'static str {
        "Style/IfWithSemicolon"
    }

    /// The offenses in the tree rooted at `root`, in traversal order.
    #[verifier::rlimit(50)]
    pub fn check_source(&self, source: &SourceFile, root: &Node) -> (r: Vec<Diagnostic>)
        ensures
            offenses(r@) == spec_check_source(source.text(), *root),
    {
        let nodes = preorder(root);
        let ghost ns = nodes@.map_values(|x: &Node| *x);
        let mut out: Vec<Diagnostic> = Vec::new();
        let mut ignored_end: usize = 0;
        let mut i: usize = 0;
        assert(ns.subrange(0, 0) =~= Seq::<Node>::empty());
        while i < nodes.len()
            invariant
                i <= nodes@.len(),
                ns == nodes@.map_values(|x: &Node| *x),
                ns == flatten(*root),
                scan(source.text(), ns.subrange(0, i as int)) == (offenses(out@), ignored_end as int),
            decreases nodes@.len() - i,
        {
            let n = nodes[i];
            assert(ns.subrange(0, i + 1).drop_last() =~= ns.subrange(0, i as int));
            assert(ns.subrange(0, i + 1).last() == *n);
            if flags_exec(source, n, ignored_end) {
                out.push(offense_exec(source, n));
                ignored_end = n.loc().end;
                assert(offenses(out@) =~= scan(source.text(), ns.subrange(0, i + 1)).0);
            }
            i = i + 1;
        }
        assert(ns.subrange(0, nodes@.len() as int) =~= ns);
        out
    }
}

} // verus!
