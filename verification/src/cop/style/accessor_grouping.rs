//! Style/AccessorGrouping: accessors of one kind and visibility that are
//! declared apart in a class body, which should be one declaration.
use vstd::prelude::*;
use vstd::string::StringSliceAdditionalSpecFns;
use crate::ast::{is_other, is_other_exec, Node};
use crate::bytes::{bytes_eq, eq_str, find_from, find_from_exec, ltrim_blank, ltrim_blank_exec, src_range, src_range_exec, utf8_is_valid};
use crate::diagnostic::{
    diagnostic, edits, offense, offenses, push_bytes, push_str, str_bytes, Correction, Diagnostic,
    Edit, Offense,
};
use crate::source::{
    line_bytes, line_count, line_end, line_start, nl_count, spec_column_of, spec_line_of, Loc,
    SourceFile,
};

verus! {

/// Whether `b` is ASCII whitespace: space, tab, line feed, form feed or
/// carriage return.
pub open spec fn is_ascii_ws(b: u8) -> bool {
    b == 32u8 || b == 9u8 || b == 10u8 || b == 12u8 || b == 13u8
}

pub open spec fn all_ws(s: Seq<u8>) -> bool {
    forall|i: int| 0 <= i < s.len() ==> is_ascii_ws(#[trigger] s[i])
}

/// Whether the line of a call holds nothing but the call and whitespace.
pub open spec fn spec_line_contains_only_call(s: Seq<u8>, start: int, end: int) -> bool {
    all_ws(s.subrange(line_start(s, start), start)) && all_ws(s.subrange(end, line_end(s, end)))
}

/// `end` moved past a line break (`\n` or `\r\n`) that directly follows it.
pub open spec fn spec_extend_to_line_break(s: Seq<u8>, end: int) -> int {
    if end >= s.len() {
        end
    } else if s[end] == 13u8 && end + 1 < s.len() && s[end + 1] == 10u8 {
        end + 2
    } else if s[end] == 10u8 {
        end + 1
    } else {
        end
    }
}

/// Whether the line before the one holding `offset` (clamped to the text)
/// is a comment line.
pub open spec fn spec_previous_line_is_comment(s: Seq<u8>, offset: int) -> bool {
    let line = spec_line_of(s, offset);
    line > 1 && {
        let t = ltrim_blank(line_bytes(s, line - 1));
        t.len() > 0 && t[0] == 35u8
    }
}

/// Whether comment `c` is an RBS inline annotation on line `line`: the
/// comment starts on that line and its text starts with `#:`.
pub open spec fn is_rbs_comment_on(s: Seq<u8>, c: Loc, line: int) -> bool {
    let t = src_range(s, c.start as int, c.end as int);
    &&& spec_line_of(s, c.start as int) == line
    &&& t.len() >= 2
    &&& t[0] == 35u8
    &&& t[1] == 58u8
}

/// Whether one of the comments `cs` of the file is an RBS inline annotation
/// (text starting with `#:`) on the line holding `offset`.
pub open spec fn spec_has_inline_rbs_comment(s: Seq<u8>, cs: Seq<Loc>, offset: int) -> bool {
    exists|k: int| 0 <= k < cs.len() && #[trigger] is_rbs_comment_on(s, cs[k], spec_line_of(s, offset))
}

/// The offset where the line holding `offset` starts.
pub fn line_start_offset(source: &SourceFile, offset: usize) -> (r: usize)
    requires
        offset <= source.text().len(),
    ensures
        r == line_start(source.text(), offset as int),
{
    source.line_start_from(offset)
}

fn all_ws_exec(s: &[u8]) -> (r: bool)
    ensures
        r == all_ws(s@),
{
    let mut i: usize = 0;
    while i < s.len()
        invariant
            i <= s@.len(),
            forall|j: int| 0 <= j < i ==> is_ascii_ws(#[trigger] s@[j]),
        decreases s@.len() - i,
    {
        let b = s[i];
        if !(b == 32u8 || b == 9u8 || b == 10u8 || b == 12u8 || b == 13u8) {
            return false;
        }
        i = i + 1;
    }
    true
}

/// Whether the line of the call `[call_start, call_end)` holds nothing but
/// the call and whitespace.
pub fn line_contains_only_call(source: &SourceFile, call_start: usize, call_end: usize) -> (r: bool)
    requires
        call_start <= source.text().len(),
        call_end <= source.text().len(),
    ensures
        r == spec_line_contains_only_call(source.text(), call_start as int, call_end as int),
{
    let s = source.as_bytes();
    let ls = source.line_start_from(call_start);
    let le = source.line_end_from(call_end);
    proof {
        crate::source::lemma_line_start_bounds(source.text(), call_start as int);
        crate::source::lemma_line_end_bounds(source.text(), call_end as int);
    }
    all_ws_exec(crate::bytes::subslice(s, ls, call_start)) && all_ws_exec(
        crate::bytes::subslice(s, call_end, le),
    )
}

/// `end` moved past a line break that directly follows it.
pub fn extend_to_line_break(source: &SourceFile, end: usize) -> (r: usize)
    ensures
        r == spec_extend_to_line_break(source.text(), end as int),
{
    let s = source.as_bytes();
    let n = source.len();
    if end >= n {
        return end;
    }
    if s[end] == 13u8 && end + 1 < n && s[end + 1] == 10u8 {
        end + 2
    } else if s[end] == 10u8 {
        end + 1
    } else {
        end
    }
}

/// Whether the line before the one holding `start_offset` is a comment.
pub fn previous_line_is_comment(source: &SourceFile, start_offset: usize) -> (r: bool)
    ensures
        r == spec_previous_line_is_comment(source.text(), start_offset as int),
{
    let (line, _) = source.position(start_offset);
    if line <= 1 {
        return false;
    }
    match source.line_at(line - 1) {
        Some(l) => {
            let t = ltrim_blank_exec(l.as_slice());
            t.len() > 0 && t[0] == 35u8
        },
        None => {
            proof {
                crate::source::lemma_nl_count_mono(
                    source.text(),
                    crate::source::clamp(source.text(), start_offset as int),
                    source.text().len() as int,
                );
            }
            false
        },
    }
}

/// Whether one of the file's `comments` is an RBS inline annotation (text
/// starting with `#:`) on the line holding `start_offset`.
pub fn has_inline_rbs_comment(source: &SourceFile, comments: &Vec<Loc>, start_offset: usize) -> (r: bool)
    ensures
        r == spec_has_inline_rbs_comment(source.text(), comments@, start_offset as int),
{
    let ghost s = source.text();
    let line = source.position(start_offset).0;
    let text = source.as_bytes();
    let mut k: usize = 0;
    while k < comments.len()
        invariant
            k <= comments@.len(),
            s == source.text(),
            text@ == s,
            line == spec_line_of(s, start_offset as int),
            forall|j: int| 0 <= j < k ==> !is_rbs_comment_on(s, #[trigger] comments@[j], line as int),
        decreases comments@.len() - k,
    {
        let c = comments[k];
        let t = src_range_exec(text, c.start, c.end);
        if source.position(c.start).0 == line && t.len() >= 2 && t[0] == 35u8 && t[1] == 58u8 {
            assert(is_rbs_comment_on(s, comments@[k as int], line as int));
            return true;
        }
        k = k + 1;
    }
    false
}

/// The statements of the body of a class, module or singleton class.
pub open spec fn class_body(n: Node) -> Option<Seq<Node>> {
    if (is_other(n, "ClassNode".spec_bytes()) || is_other(n, "ModuleNode".spec_bytes()) || is_other(
        n,
        "SingletonClassNode".spec_bytes(),
    )) && n->Other_children@.len() > 0 {
        match n->Other_children@.last() {
            Node::Statements { body, .. } => Some(body@),
            _ => None,
        }
    } else {
        None
    }
}

pub fn class_body_exec(n: &Node) -> (r: Option<&Vec<Node>>)
    ensures
        match r {
            Some(v) => class_body(*n) == Some(v@),
            None => class_body(*n) is None,
        },
{
    match n {
        Node::Other { children, .. } => {
            if (is_other_exec(n, "ClassNode") || is_other_exec(n, "ModuleNode") || is_other_exec(
                n,
                "SingletonClassNode",
            )) && children.len() > 0 {
                match &children[children.len() - 1] {
                    Node::Statements { body, .. } => Some(body),
                    _ => None,
                }
            } else {
                None
            }
        },
        _ => None,
    }
}

/// `private`, `protected` or `public`.
pub open spec fn is_visibility_name(name: Seq<u8>) -> bool {
    name == "private".spec_bytes() || name == "protected".spec_bytes() || name
        == "public".spec_bytes()
}

/// The visibility a name sets: 0 public, 1 private, 2 protected.
pub open spec fn visibility_of(name: Seq<u8>) -> u8 {
    if name == "private".spec_bytes() {
        1u8
    } else if name == "protected".spec_bytes() {
        2u8
    } else {
        0u8
    }
}

/// A bare visibility modifier: no arguments, no block.
pub open spec fn is_modifier_call(s: Node) -> bool {
    s matches Node::Call { name, arguments: None, block: None, .. } && is_visibility_name(name@)
}

/// The methods that declare accessors.
pub open spec fn is_accessor_name(name: Seq<u8>) -> bool {
    ||| name == "attr_reader".spec_bytes()
    ||| name == "attr_writer".spec_bytes()
    ||| name == "attr_accessor".spec_bytes()
    ||| name == "attr".spec_bytes()
}

/// An accessor declaration without receiver.
pub open spec fn is_accessor(s: Node) -> bool {
    s matches Node::Call { receiver: None, name, .. } && is_accessor_name(name@)
}

/// The visibility in force before statement `k`.
pub open spec fn vis_upto(stmts: Seq<Node>, k: int) -> u8
    decreases k,
{
    if k <= 0 {
        0u8
    } else if is_modifier_call(stmts[k - 1]) {
        visibility_of(stmts[k - 1]->Call_name@)
    } else {
        vis_upto(stmts, k - 1)
    }
}

/// The line on which a call ends for grouping: where its block starts, or
/// where the call ends.
pub open spec fn expression_last_line(src: Seq<u8>, c: Node) -> int {
    match c {
        Node::Call { block: Some(b), .. } => if *b is Block {
            spec_line_of(src, b.spec_loc().start as int)
        } else {
            spec_line_of(src, c.spec_loc().end as int)
        },
        _ => spec_line_of(src, c.spec_loc().end as int),
    }
}

/// Whether statement `i` may be grouped with others, judged by the statement
/// before it.
pub open spec fn groupable(src: Seq<u8>, cs: Seq<Loc>, stmts: Seq<Node>, i: int) -> bool {
    if i <= 0 {
        true
    } else {
        let prev = stmts[i - 1];
        match prev {
            Node::Call { name, receiver, .. } => if spec_has_inline_rbs_comment(
                src,
                cs,
                prev.spec_loc().start as int,
            ) {
                false
            } else if is_accessor_name(name@) && receiver is None {
                true
            } else if is_modifier_call(prev) {
                true
            } else {
                spec_line_of(src, stmts[i].spec_loc().start as int) - expression_last_line(src, prev)
                    > 1
            },
            _ => true,
        }
    }
}

/// An accessor that takes part in grouping.
pub open spec fn eligible(src: Seq<u8>, cs: Seq<Loc>, stmts: Seq<Node>, i: int) -> bool {
    &&& is_accessor(stmts[i])
    &&& groupable(src, cs, stmts, i)
    &&& !spec_previous_line_is_comment(src, stmts[i].spec_loc().start as int)
}

/// Statements `i` and `j` belong to one group: eligible accessors of the same
/// kind and visibility.
pub open spec fn same_group(src: Seq<u8>, cs: Seq<Loc>, stmts: Seq<Node>, i: int, j: int) -> bool {
    &&& eligible(src, cs, stmts, i)
    &&& eligible(src, cs, stmts, j)
    &&& stmts[i]->Call_name@ == stmts[j]->Call_name@
    &&& vis_upto(stmts, i) == vis_upto(stmts, j)
}

/// The number of statements before `m` in the group of `i`.
pub open spec fn group_count(src: Seq<u8>, cs: Seq<Loc>, stmts: Seq<Node>, i: int, m: int) -> nat
    decreases m,
{
    if m <= 0 {
        0
    } else {
        group_count(src, cs, stmts, i, m - 1) + if same_group(src, cs, stmts, i, m - 1) {
            1nat
        } else {
            0nat
        }
    }
}

pub open spec fn group_message(name: Seq<u8>) -> Seq<u8> {
    "Group together all `".spec_bytes() + name + "` attributes.".spec_bytes()
}

/// The offenses of the statements before `m` in the group of `i`.
pub open spec fn group_offenses(src: Seq<u8>, cs: Seq<Loc>, stmts: Seq<Node>, i: int, m: int) -> Seq<Offense>
    decreases m,
{
    if m <= 0 {
        Seq::empty()
    } else {
        group_offenses(src, cs, stmts, i, m - 1) + if same_group(src, cs, stmts, i, m - 1) {
            seq![
                offense(
                    spec_line_of(src, stmts[m - 1].spec_loc().start as int),
                    spec_column_of(src, stmts[m - 1].spec_loc().start as int),
                    group_message(stmts[m - 1]->Call_name@),
                ),
            ]
        } else {
            Seq::empty()
        }
    }
}

/// The offenses reported while going through the first `k` statements: a
/// group of two or more is reported, whole, at its first member.
pub open spec fn report_upto(src: Seq<u8>, cs: Seq<Loc>, stmts: Seq<Node>, k: int) -> Seq<Offense>
    decreases k,
{
    if k <= 0 {
        Seq::empty()
    } else {
        let i = k - 1;
        report_upto(src, cs, stmts, k - 1) + if eligible(src, cs, stmts, i) && group_count(src, cs, stmts, i, i)
            == 0 && group_count(src, cs, stmts, i, stmts.len() as int) > 1 {
            group_offenses(src, cs, stmts, i, stmts.len() as int)
        } else {
            Seq::empty()
        }
    }
}

/// What the correction needs of an accessor call.
pub struct CallInfo {
    pub start: usize,
    pub end: usize,
    pub start_line: int,
    pub end_line: int,
    pub args_start: usize,
    pub args_end: usize,
    pub args_source: Seq<u8>,
}

/// The call facts of a statement: a call without receiver and block, with
/// arguments whose source is valid UTF-8 and not empty.  (Call ranges lie in
/// the text; a statement whose range does not is left alone.)
pub open spec fn call_info(src: Seq<u8>, s: Node) -> Option<CallInfo> {
    match s {
        Node::Call { receiver: None, block: None, arguments: Some(a), loc, .. } => {
            let al = a.spec_loc();
            if al.start <= al.end && al.end <= src.len() && loc.start <= loc.end && loc.end <= src.len() && vstd::utf8::valid_utf8(
                src.subrange(al.start as int, al.end as int),
            ) && al.start < al.end {
                Some(
                    CallInfo {
                        start: loc.start,
                        end: loc.end,
                        start_line: spec_line_of(src, loc.start as int),
                        end_line: spec_line_of(src, loc.end as int),
                        args_start: al.start,
                        args_end: al.end,
                        args_source: src.subrange(al.start as int, al.end as int),
                    },
                )
            } else {
                None
            }
        },
        _ => None,
    }
}

/// Whether statement `j` extends a run of group `i` that ends at `j - 1`.
pub open spec fn continues_run(src: Seq<u8>, cs: Seq<Loc>, stmts: Seq<Node>, i: int, j: int) -> bool {
    &&& eligible(src, cs, stmts, j)
    &&& stmts[j]->Call_name@ == stmts[i]->Call_name@
    &&& vis_upto(stmts, j) == vis_upto(stmts, i)
    &&& call_info(src, stmts[j]) matches Some(c) && {
        &&& call_info(src, stmts[j - 1]) matches Some(p) && c.start_line == p.end_line + 1
        &&& spec_line_contains_only_call(src, c.start as int, c.end as int)
    }
}

/// The end of the run of adjacent group members that starts at `i`, looking
/// from `j` on.
pub open spec fn run_end(src: Seq<u8>, cs: Seq<Loc>, stmts: Seq<Node>, i: int, j: int) -> int
    decreases stmts.len() - j,
{
    if j >= stmts.len() || j <= 0 || !continues_run(src, cs, stmts, i, j) {
        j
    } else {
        run_end(src, cs, stmts, i, j + 1)
    }
}

/// The argument sources of statements `[i, j)`, joined by `, `.
pub open spec fn joined_args(src: Seq<u8>, stmts: Seq<Node>, i: int, j: int) -> Seq<u8>
    decreases j - i,
{
    if j <= i {
        Seq::empty()
    } else if j == i + 1 {
        call_info(src, stmts[i])->Some_0.args_source
    } else {
        joined_args(src, stmts, i, j - 1) + ", ".spec_bytes() + call_info(
            src,
            stmts[j - 1],
        )->Some_0.args_source
    }
}

/// The deletions of the lines of statements `[i, j)`.
pub open spec fn run_deletions(src: Seq<u8>, stmts: Seq<Node>, i: int, j: int) -> Seq<Edit>
    decreases j - i,
{
    if j <= i {
        Seq::empty()
    } else {
        let c = call_info(src, stmts[j - 1])->Some_0;
        run_deletions(src, stmts, i, j - 1) + seq![
            Edit {
                start: line_start(src, c.start as int),
                end: spec_extend_to_line_break(src, c.end as int),
                replacement: Seq::empty(),
            },
        ]
    }
}

/// The corrections of the runs that start at or after `i`.
pub open spec fn corrections_from(src: Seq<u8>, cs: Seq<Loc>, stmts: Seq<Node>, i: int) -> Seq<Edit>
    decreases stmts.len() - i,
{
    if i < 0 || i >= stmts.len() {
        Seq::empty()
    } else if call_info(src, stmts[i]) is None || !eligible(src, cs, stmts, i) {
        corrections_from(src, cs, stmts, i + 1)
    } else {
        let j = run_end(src, cs, stmts, i, i + 1);
        if j - i > 1 && j <= stmts.len() {
            let first = call_info(src, stmts[i])->Some_0;
            seq![
                Edit {
                    start: first.args_start as int,
                    end: first.args_end as int,
                    replacement: joined_args(src, stmts, i, j),
                },
            ] + run_deletions(src, stmts, i + 1, j) + corrections_from(src, cs, stmts, j)
        } else {
            corrections_from(src, cs, stmts, i + 1)
        }
    }
}

/// The styles the cop knows.
#[derive(Clone, Copy, PartialEq, Eq, Structural, Debug)]
pub enum AccessorStyle {
    Grouped,
    Separated,
}

/// The cop.
pub struct AccessorGrouping;

/// The offenses and corrections at `n` under `style`.
pub open spec fn spec_check_node(src: Seq<u8>, cs: Seq<Loc>, n: Node, style: AccessorStyle) -> (
    Seq<Offense>,
    Seq<Edit>,
) {
    match class_body(n) {
        Some(stmts) => if style == AccessorStyle::Grouped && stmts.len() > 0 {
            (report_upto(src, cs, stmts, stmts.len() as int), corrections_from(src, cs, stmts, 0))
        } else {
            (Seq::empty(), Seq::empty())
        },
        None => (Seq::empty(), Seq::empty()),
    }
}

fn call_name(s: &Node) -> (r: &[u8])
    ensures
        s is Call ==> r@ == s->Call_name@,
{
    match s {
        Node::Call { name, .. } => name.as_slice(),
        _ => &[],
    }
}

fn is_visibility_name_exec(name: &[u8]) -> (r: bool)
    ensures
        r == is_visibility_name(name@),
{
    eq_str(name, "private") || eq_str(name, "protected") || eq_str(name, "public")
}

fn visibility_of_exec(name: &[u8]) -> (r: u8)
    ensures
        r == visibility_of(name@),
{
    if eq_str(name, "private") {
        1
    } else if eq_str(name, "protected") {
        2
    } else {
        0
    }
}

fn is_modifier_call_exec(s: &Node) -> (r: bool)
    ensures
        r == is_modifier_call(*s),
{
    match s {
        Node::Call { name, arguments: None, block: None, .. } => is_visibility_name_exec(
            name.as_slice(),
        ),
        _ => false,
    }
}

fn is_accessor_name_exec(name: &[u8]) -> (r: bool)
    ensures
        r == is_accessor_name(name@),
{
    eq_str(name, "attr_reader") || eq_str(name, "attr_writer") || eq_str(name, "attr_accessor")
        || eq_str(name, "attr")
}

fn is_accessor_exec(s: &Node) -> (r: bool)
    ensures
        r == is_accessor(*s),
{
    match s {
        Node::Call { receiver: None, name, .. } => is_accessor_name_exec(name.as_slice()),
        _ => false,
    }
}

fn expression_last_line_exec(source: &SourceFile, c: &Node) -> (r: usize)
    ensures
        r == expression_last_line(source.text(), *c),
{
    match c {
        Node::Call { block: Some(b), .. } => match &**b {
            Node::Block { loc, .. } => source.position(loc.start).0,
            _ => source.position(c.loc().end).0,
        },
        _ => source.position(c.loc().end).0,
    }
}

fn groupable_exec(source: &SourceFile, comments: &Vec<Loc>, stmts: &Vec<Node>, i: usize) -> (r: bool)
    requires
        i < stmts@.len(),
    ensures
        r == groupable(source.text(), comments@, stmts@, i as int),
{
    if i == 0 {
        return true;
    }
    let prev = &stmts[i - 1];
    match prev {
        Node::Call { name, receiver, .. } => {
            if has_inline_rbs_comment(source, comments, prev.loc().start) {
                false
            } else if is_accessor_name_exec(name.as_slice()) && receiver.is_none() {
                true
            } else if is_modifier_call_exec(prev) {
                true
            } else {
                let cur = source.position(stmts[i].loc().start).0;
                let last = expression_last_line_exec(source, prev);
                cur > last && cur - last > 1
            }
        },
        _ => true,
    }
}

fn eligible_exec(source: &SourceFile, comments: &Vec<Loc>, stmts: &Vec<Node>, i: usize) -> (r: bool)
    requires
        i < stmts@.len(),
    ensures
        r == eligible(source.text(), comments@, stmts@, i as int),
{
    is_accessor_exec(&stmts[i]) && groupable_exec(source, comments, stmts, i) && !previous_line_is_comment(source, stmts[i].loc().start)
}

/// The executable form of [`CallInfo`]; the argument source is read from the
/// text when needed.
struct CallFacts {
    start: usize,
    end: usize,
    start_line: usize,
    end_line: usize,
    args_start: usize,
    args_end: usize,
}

fn call_info_exec(source: &SourceFile, s: &Node) -> (r: Option<CallFacts>)
    ensures
        match r {
            Some(f) => call_info(source.text(), *s) matches Some(c) && c.start == f.start && c.end
                == f.end && c.start_line == f.start_line && c.end_line == f.end_line && c.args_start
                == f.args_start && c.args_end == f.args_end,
            None => call_info(source.text(), *s) is None,
        },
        r is Some ==> r->Some_0.start <= r->Some_0.end <= source.text().len(),
{
    match s {
        Node::Call { receiver: None, block: None, arguments: Some(a), loc, .. } => {
            let al = a.loc();
            let n = source.len();
            if al.start <= al.end && al.end <= n && loc.start <= loc.end && loc.end <= n && al.start < al.end {
                if utf8_is_valid(crate::bytes::subslice(source.as_bytes(), al.start, al.end)) {
                    return Some(
                        CallFacts {
                            start: loc.start,
                            end: loc.end,
                            start_line: source.position(loc.start).0,
                            end_line: source.position(loc.end).0,
                            args_start: al.start,
                            args_end: al.end,
                        },
                    );
                }
            }
            None
        },
        _ => None,
    }
}

fn continues_run_exec(
    source: &SourceFile,
    comments: &Vec<Loc>,
    stmts: &Vec<Node>,
    elig: &Vec<bool>,
    vis: &Vec<u8>,
    i: usize,
    j: usize,
) -> (r: bool)
    requires
        0 < j < stmts@.len(),
        i < stmts@.len(),
        eligible(source.text(), comments@, stmts@, i as int),
        elig@.len() == stmts@.len(),
        vis@.len() == stmts@.len(),
        forall|k: int| 0 <= k < stmts@.len() ==> elig@[k] == eligible(source.text(), comments@, stmts@, k),
        forall|k: int| 0 <= k < stmts@.len() ==> vis@[k] == vis_upto(stmts@, k),
    ensures
        r == continues_run(source.text(), comments@, stmts@, i as int, j as int),
{
    if !elig[j] || !bytes_eq(call_name(&stmts[j]), call_name(&stmts[i])) || vis[j] != vis[i] {
        return false;
    }
    assert(stmts@[j as int] is Call);
    let c = match call_info_exec(source, &stmts[j]) {
        Some(c) => c,
        None => {
            return false;
        },
    };
    let p = match call_info_exec(source, &stmts[j - 1]) {
        Some(p) => p,
        None => {
            return false;
        },
    };
    if p.end_line == usize::MAX || c.start_line != p.end_line + 1 {
        return false;
    }
    line_contains_only_call(source, c.start, c.end)
}

impl AccessorGrouping {
    pub fn name(&self) -> &'static str {
        "Style/AccessorGrouping"
    }

    /// The offenses and corrections at `node`: in a class, module or
    /// singleton class body, accessors of one kind and visibility declared
    /// apart, and the corrections that merge adjacent runs of them.
    #[verifier::rlimit(50)]
    pub fn check_node(&self, source: &SourceFile, node: &Node, comments: &Vec<Loc>, style: AccessorStyle) -> (r: (
        Vec<Diagnostic>,
        Vec<Correction>,
    ))
        ensures
            (offenses(r.0@), edits(r.1@)) == spec_check_node(source.text(), comments@, *node, style),
    {
        let mut out: Vec<Diagnostic> = Vec::new();
        let mut fixes: Vec<Correction> = Vec::new();
        assert(offenses(out@) =~= Seq::<Offense>::empty());
        assert(edits(fixes@) =~= Seq::<Edit>::empty());
        let stmts = match class_body_exec(node) {
            Some(b) => b,
            None => {
                return (out, fixes);
            },
        };
        if style != AccessorStyle::Grouped || stmts.len() == 0 {
            return (out, fixes);
        }
        let ghost src = source.text();
        let ghost ss = stmts@;
        let n = stmts.len();
        let mut elig: Vec<bool> = Vec::new();
        let mut vis: Vec<u8> = Vec::new();
        let mut cur: u8 = 0;
        let mut i: usize = 0;
        while i < n
            invariant
                i <= n == ss.len(),
                ss == stmts@,
                src == source.text(),
                elig@.len() == i,
                vis@.len() == i,
                cur == vis_upto(ss, i as int),
                forall|k: int| 0 <= k < i ==> elig@[k] == eligible(src, comments@, ss, k),
                forall|k: int| 0 <= k < i ==> vis@[k] == vis_upto(ss, k),
            decreases n - i,
        {
            elig.push(eligible_exec(source, comments, stmts, i));
            vis.push(cur);
            if is_modifier_call_exec(&stmts[i]) {
                cur = visibility_of_exec(call_name(&stmts[i]));
            }
            i = i + 1;
        }
        self.report(source, comments, stmts, &elig, &vis, &mut out);
        self.correct(source, comments, stmts, &elig, &vis, &mut fixes);
        (out, fixes)
    }

    fn report(
        &self,
        source: &SourceFile,
        comments: &Vec<Loc>,
        stmts: &Vec<Node>,
        elig: &Vec<bool>,
        vis: &Vec<u8>,
        out: &mut Vec<Diagnostic>,
    )
        requires
            elig@.len() == stmts@.len(),
            vis@.len() == stmts@.len(),
            forall|k: int| 0 <= k < stmts@.len() ==> elig@[k] == eligible(source.text(), comments@, stmts@, k),
            forall|k: int| 0 <= k < stmts@.len() ==> vis@[k] == vis_upto(stmts@, k),
            offenses(old(out)@) == Seq::<Offense>::empty(),
        ensures
            offenses(final(out)@) == report_upto(source.text(), comments@, stmts@, stmts@.len() as int),
    {
        let ghost src = source.text();
        let ghost ss = stmts@;
        let n = stmts.len();
        let mut i: usize = 0;
        while i < n
            invariant
                i <= n == ss.len(),
                ss == stmts@,
                src == source.text(),
                elig@.len() == n,
                vis@.len() == n,
                forall|k: int| 0 <= k < n ==> elig@[k] == eligible(src, comments@, ss, k),
                forall|k: int| 0 <= k < n ==> vis@[k] == vis_upto(ss, k),
                offenses(out@) == report_upto(src, comments@, ss, i as int),
            decreases n - i,
        {
            if elig[i] {
                let mut before: usize = 0;
                let mut total: usize = 0;
                let mut j: usize = 0;
                while j < n
                    invariant
                        i < n == ss.len(),
                        j <= n,
                        elig@.len() == n,
                        vis@.len() == n,
                        elig@[i as int],
                        forall|k: int| 0 <= k < n ==> elig@[k] == eligible(src, comments@, ss, k),
                        forall|k: int| 0 <= k < n ==> vis@[k] == vis_upto(ss, k),
                        ss == stmts@,
                        total == group_count(src, comments@, ss, i as int, j as int),
                        before == group_count(src, comments@, ss, i as int, if j < i { j as int } else { i as int }),
                        total <= j,
                    decreases n - j,
                {
                    if elig[j] && bytes_eq(call_name(&stmts[j]), call_name(&stmts[i])) && vis[j]
                        == vis[i] {
                        total = total + 1;
                        if j < i {
                            before = before + 1;
                        }
                    }
                    j = j + 1;
                }
                if before == 0 && total > 1 {
                    let ghost o = offenses(out@);
                    let mut j: usize = 0;
                    while j < n
                        invariant
                            i < n == ss.len(),
                            j <= n,
                            elig@.len() == n,
                            vis@.len() == n,
                            elig@[i as int],
                            forall|k: int| 0 <= k < n ==> elig@[k] == eligible(src, comments@, ss, k),
                            forall|k: int| 0 <= k < n ==> vis@[k] == vis_upto(ss, k),
                            ss == stmts@,
                            src == source.text(),
                            offenses(out@) == o + group_offenses(src, comments@, ss, i as int, j as int),
                        decreases n - j,
                    {
                        if elig[j] && bytes_eq(call_name(&stmts[j]), call_name(&stmts[i])) && vis[j]
                            == vis[i] {
                            let (line, column) = source.position(stmts[j].loc().start);
                            let mut m: Vec<u8> = Vec::new();
                            push_str(&mut m, "Group together all `");
                            push_bytes(&mut m, call_name(&stmts[j]));
                            push_str(&mut m, "` attributes.");
                            let ghost b = out@;
                            out.push(diagnostic(line, column, m));
                            assert(offenses(out@) =~= offenses(b) + seq![offenses(out@).last()]);
                        }
                        assert(offenses(out@) =~= o + group_offenses(src, comments@, ss, i as int, j + 1));
                        j = j + 1;
                    }
                }
            }
            assert(offenses(out@) =~= report_upto(src, comments@, ss, i + 1));
            i = i + 1;
        }
    }

    fn correct(
        &self,
        source: &SourceFile,
        comments: &Vec<Loc>,
        stmts: &Vec<Node>,
        elig: &Vec<bool>,
        vis: &Vec<u8>,
        fixes: &mut Vec<Correction>,
    )
        requires
            elig@.len() == stmts@.len(),
            vis@.len() == stmts@.len(),
            forall|k: int| 0 <= k < stmts@.len() ==> elig@[k] == eligible(source.text(), comments@, stmts@, k),
            forall|k: int| 0 <= k < stmts@.len() ==> vis@[k] == vis_upto(stmts@, k),
            edits(old(fixes)@) == Seq::<Edit>::empty(),
        ensures
            edits(final(fixes)@) == corrections_from(source.text(), comments@, stmts@, 0),
    {
        let ghost src = source.text();
        let ghost ss = stmts@;
        let n = stmts.len();
        let mut i: usize = 0;
        while i < n
            invariant
                i <= n == ss.len(),
                ss == stmts@,
                src == source.text(),
                elig@.len() == n,
                vis@.len() == n,
                forall|k: int| 0 <= k < n ==> elig@[k] == eligible(src, comments@, ss, k),
                forall|k: int| 0 <= k < n ==> vis@[k] == vis_upto(ss, k),
                edits(fixes@) + corrections_from(src, comments@, ss, i as int) == corrections_from(src, comments@, ss, 0),
            decreases n - i,
        {
            let first = match call_info_exec(source, &stmts[i]) {
                Some(f) => f,
                None => {
                    i = i + 1;
                    continue;
                },
            };
            if !elig[i] {
                i = i + 1;
                continue;
            }
            let mut j = i + 1;
            while j < n && continues_run_exec(source, comments, stmts, elig, vis, i, j)
                invariant
                    i < j <= n == ss.len(),
                    ss == stmts@,
                    src == source.text(),
                    elig@.len() == n,
                    vis@.len() == n,
                    forall|k: int| 0 <= k < n ==> elig@[k] == eligible(src, comments@, ss, k),
                    forall|k: int| 0 <= k < n ==> vis@[k] == vis_upto(ss, k),
                    run_end(src, comments@, ss, i as int, j as int) == run_end(src, comments@, ss, i as int, i + 1),
                    eligible(src, comments@, ss, i as int),
                    forall|k: int| i <= k < j ==> call_info(src, ss[k]) is Some,
                decreases n - j,
            {
                j = j + 1;
            }
            assert(run_end(src, comments@, ss, i as int, j as int) == j);
            if j - i > 1 {
                let ghost e0 = edits(fixes@);
                let mut merged: Vec<u8> = Vec::new();
                let mut k = i;
                while k < j
                    invariant
                        i <= k <= j <= n == ss.len(),
                        ss == stmts@,
                        src == source.text(),
                        forall|q: int| i <= q < j ==> call_info(src, ss[q]) is Some,
                        merged@ == joined_args(src, ss, i as int, k as int),
                    decreases j - k,
                {
                    let f = match call_info_exec(source, &stmts[k]) {
                        Some(f) => f,
                        None => {
                            assert(false);
                            return;
                        },
                    };
                    if k > i {
                        push_str(&mut merged, ", ");
                    }
                    push_bytes(
                        &mut merged,
                        crate::bytes::subslice(source.as_bytes(), f.args_start, f.args_end),
                    );
                    assert(merged@ =~= joined_args(src, ss, i as int, k + 1));
                    k = k + 1;
                }
                fixes.push(Correction { start: first.args_start, end: first.args_end, replacement: merged });
                let ghost e1 = edits(fixes@);
                assert(e1 =~= e0 + seq![e1.last()]);
                let mut k = i + 1;
                while k < j
                    invariant
                        i < k <= j <= n == ss.len(),
                        ss == stmts@,
                        src == source.text(),
                        forall|q: int| i <= q < j ==> call_info(src, ss[q]) is Some,
                        edits(fixes@) == e1 + run_deletions(src, ss, i + 1, k as int),
                    decreases j - k,
                {
                    let f = match call_info_exec(source, &stmts[k]) {
                        Some(f) => f,
                        None => {
                            assert(false);
                            return;
                        },
                    };
                    let ghost b = edits(fixes@);
                    let ds = line_start_offset(source, f.start);
                    let de = extend_to_line_break(source, f.end);
                    let empty: Vec<u8> = Vec::new();
                    assert(empty@ =~= Seq::<u8>::empty());
                    fixes.push(Correction { start: ds, end: de, replacement: empty });
                    assert(edits(fixes@) =~= b + seq![edits(fixes@).last()]);
                    assert(edits(fixes@).last() == Edit {
                        start: line_start(src, call_info(src, ss[k as int])->Some_0.start as int),
                        end: spec_extend_to_line_break(src, call_info(src, ss[k as int])->Some_0.end as int),
                        replacement: Seq::<u8>::empty(),
                    });
                    assert(edits(fixes@) =~= e1 + run_deletions(src, ss, i + 1, k + 1));
                    k = k + 1;
                }
                i = j;
            } else {
                i = i + 1;
            }
        }
    }
}

} // verus!
