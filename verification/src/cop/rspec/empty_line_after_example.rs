//! RSpec/EmptyLineAfterExample: an example block followed directly by code.
//!
//! After an example with a block (`it ... do ... end`, `it { ... }`), the next
//! line must be blank, a terminator (`end`, `}`, `else`, ...), or comments
//! followed by a blank line.  With `AllowConsecutiveOneLiners`, a one-line
//! example may be followed by another one-line example.
use vstd::prelude::*;
use vstd::string::StringSliceAdditionalSpecFns;
use crate::ast::Node;
use crate::bytes::{
    ends_with, first_non_blank, is_blank, lemma_ltrim_suffix, ltrim_blank, ltrim_blank_exec,
    starts_with, starts_with_str,
};
use crate::cop::util::{find_max_heredoc_end_offset, heredoc_max, is_rspec_example, spec_is_rspec_example};
use crate::diagnostic::{offense, offenses, push_bytes, push_str, Diagnostic, Offense};
use crate::source::{line_bytes, line_count, spec_column_of, spec_line_of, SourceFile};

verus! {

/// The cop.
pub struct EmptyLineAfterExample;

/// A letter, a digit or `_`.
pub open spec fn is_word_byte(b: u8) -> bool {
    (48 <= b <= 57) || (65 <= b <= 90) || (97 <= b <= 122) || b == 95u8
}

pub fn is_word_byte_exec(b: u8) -> (r: bool)
    ensures
        r == is_word_byte(b),
{
    (48 <= b && b <= 57) || (65 <= b && b <= 90) || (97 <= b && b <= 122) || b == 95u8
}

/// Whether the line's first non-blank byte is `#`.
pub open spec fn spec_is_comment_line(line: Seq<u8>) -> bool {
    ltrim_blank(line).len() > 0 && ltrim_blank(line)[0] == 35u8
}

/// Whether the line holds only spaces, tabs and carriage returns.
pub open spec fn is_blank_line(line: Seq<u8>) -> bool {
    forall|i: int| 0 <= i < line.len() ==> (is_blank(#[trigger] line[i]) || line[i] == 13u8)
}

/// Whether `rest` starts with keyword `kw` as a whole word.
pub open spec fn starts_with_word(rest: Seq<u8>, kw: Seq<u8>) -> bool {
    starts_with(rest, kw) && (rest.len() == kw.len() || !is_word_byte(rest[kw.len() as int]))
}

/// Whether the line starts (after blanks) with `}` or a keyword that closes
/// or continues a block: `end`, `else`, `elsif`, `when`, `rescue`, `ensure`, `in `.
pub open spec fn spec_is_terminator_line(line: Seq<u8>) -> bool {
    let rest = ltrim_blank(line);
    &&& rest.len() > 0
    &&& {
        ||| starts_with(rest, "}".spec_bytes())
        ||| starts_with_word(rest, "end".spec_bytes())
        ||| starts_with_word(rest, "else".spec_bytes())
        ||| starts_with_word(rest, "elsif".spec_bytes())
        ||| starts_with_word(rest, "when".spec_bytes())
        ||| starts_with_word(rest, "rescue".spec_bytes())
        ||| starts_with_word(rest, "ensure".spec_bytes())
        ||| starts_with_word(rest, "in ".spec_bytes())
    }
}

/// `s` without leading and trailing spaces and tabs.
pub open spec fn spec_trim_ascii_whitespace(s: Seq<u8>) -> Seq<u8> {
    crate::cop::style::if_with_semicolon::rtrim_blank(ltrim_blank(s))
}

/// Whether `kw` occurs in `line` at `i` with no word byte on either side.
pub open spec fn keyword_at(line: Seq<u8>, kw: Seq<u8>, i: int) -> bool {
    &&& 0 <= i
    &&& i + kw.len() <= line.len()
    &&& line.subrange(i, i + kw.len()) == kw
    &&& (i == 0 || !is_word_byte(line[i - 1]))
    &&& (i + kw.len() == line.len() || !is_word_byte(line[i + kw.len()]))
}

/// Whether the non-empty keyword `kw` occurs in `line` as a whole word.
pub open spec fn spec_contains_keyword(line: Seq<u8>, kw: Seq<u8>) -> bool {
    kw.len() > 0 && exists|i: int| keyword_at(line, kw, i)
}

/// Whether the line is a one-line block: it has both braces, or ends with
/// `end` and holds the keyword `do`.
pub open spec fn spec_is_single_line_block(line: Seq<u8>) -> bool {
    ||| line.contains(123u8) && line.contains(125u8)
    ||| {
        let t = spec_trim_ascii_whitespace(line);
        ends_with(t, "end".spec_bytes()) && spec_contains_keyword(t, "do".spec_bytes())
    }
}

/// Whether `line` starts with example method `kw`, alone or followed by a
/// space, `(` or `{`.
pub open spec fn starts_with_example_word(line: Seq<u8>, kw: Seq<u8>) -> bool {
    starts_with(line, kw) && (line.len() == kw.len() || line[kw.len() as int] == 32u8
        || line[kw.len() as int] == 40u8 || line[kw.len() as int] == 123u8)
}

/// Whether the line starts with an RSpec example method.
pub open spec fn spec_starts_with_example_keyword(line: Seq<u8>) -> bool {
    ||| starts_with_example_word(line, "it".spec_bytes())
    ||| starts_with_example_word(line, "specify".spec_bytes())
    ||| starts_with_example_word(line, "example".spec_bytes())
    ||| starts_with_example_word(line, "scenario".spec_bytes())
    ||| starts_with_example_word(line, "its".spec_bytes())
    ||| starts_with_example_word(line, "fit".spec_bytes())
    ||| starts_with_example_word(line, "fspecify".spec_bytes())
    ||| starts_with_example_word(line, "fexample".spec_bytes())
    ||| starts_with_example_word(line, "fscenario".spec_bytes())
    ||| starts_with_example_word(line, "focus".spec_bytes())
    ||| starts_with_example_word(line, "xit".spec_bytes())
    ||| starts_with_example_word(line, "xspecify".spec_bytes())
    ||| starts_with_example_word(line, "xexample".spec_bytes())
    ||| starts_with_example_word(line, "xscenario".spec_bytes())
    ||| starts_with_example_word(line, "skip".spec_bytes())
    ||| starts_with_example_word(line, "pending".spec_bytes())
}

/// Whether the example at `n` ends on one line.
pub open spec fn on_single_line(src: Seq<u8>, n: Node) -> bool {
    spec_line_of(src, n.spec_loc().start as int) == spec_line_of(src, n.spec_loc().end as int)
}

/// The line that decides the offense, from line `k` on: none when it is
/// blank or when only comments follow up to a blank line or the end of the
/// file; otherwise the first line that is no comment.
pub open spec fn deciding_line(src: Seq<u8>, k: int) -> Option<Seq<u8>>
    decreases line_count(src) + 1 - k,
{
    if k < 1 || k > line_count(src) {
        None
    } else {
        let l = line_bytes(src, k);
        if is_blank_line(l) {
            None
        } else if spec_is_comment_line(l) {
            deciding_line(src, k + 1)
        } else {
            Some(l)
        }
    }
}

/// The last line of the example, counting heredoc bodies it contains.
pub open spec fn example_end_line(src: Seq<u8>, n: Node) -> int {
    let e = if heredoc_max(src, n) > n.spec_loc().end {
        heredoc_max(src, n)
    } else {
        n.spec_loc().end as int
    };
    let last = if e - 1 > n.spec_loc().start { e - 1 } else { n.spec_loc().start as int };
    spec_line_of(src, last)
}

/// The number of leading spaces of line `k` (0 when there is no such line).
pub open spec fn indent_of_line(src: Seq<u8>, k: int) -> int {
    if 1 <= k <= line_count(src) {
        leading_spaces(line_bytes(src, k))
    } else {
        0
    }
}

/// The number of leading spaces.
pub open spec fn leading_spaces(s: Seq<u8>) -> int
    decreases s.len(),
{
    if s.len() > 0 && s[0] == 32u8 {
        1 + leading_spaces(s.drop_first())
    } else {
        0
    }
}

/// The offense at `n`, if it is an example with a block that is not followed
/// by an empty line.
pub open spec fn spec_check_node(src: Seq<u8>, n: Node, allow_consecutive: bool) -> Seq<Offense> {
    if n matches Node::Call { receiver: None, name, block: Some(_), .. }
        && spec_is_rspec_example(n->Call_name@) {
        let end_line = example_end_line(src, n);
        let one_liner = on_single_line(src, n);
        match deciding_line(src, end_line + 1) {
            None => Seq::empty(),
            Some(l) => {
                let rest = ltrim_blank(l);
                if allow_consecutive && one_liner && rest.len() > 0
                    && spec_starts_with_example_keyword(rest) && spec_is_single_line_block(rest) {
                    Seq::empty()
                } else if spec_is_terminator_line(l) {
                    Seq::empty()
                } else {
                    let col = if one_liner {
                        spec_column_of(src, n.spec_loc().start as int)
                    } else {
                        indent_of_line(src, end_line)
                    };
                    seq![
                        offense(
                            end_line,
                            col,
                            "Add an empty line after `".spec_bytes() + n->Call_name@
                                + "`.".spec_bytes(),
                        ),
                    ]
                }
            },
        }
    } else {
        Seq::empty()
    }
}

/// Whether the line's first non-blank byte is `#`.
pub fn is_comment_line(line: &[u8]) -> (r: bool)
    ensures
        r == spec_is_comment_line(line@),
{
    let rest = ltrim_blank_exec(line);
    rest.len() > 0 && rest[0] == 35u8
}

pub fn is_blank_line_exec(line: &[u8]) -> (r: bool)
    ensures
        r == is_blank_line(line@),
{
    let mut i: usize = 0;
    while i < line.len()
        invariant
            i <= line@.len(),
            forall|j: int| 0 <= j < i ==> (is_blank(#[trigger] line@[j]) || line@[j] == 13u8),
        decreases line@.len() - i,
    {
        let b = line[i];
        if !(b == 32u8 || b == 9u8 || b == 13u8) {
            return false;
        }
        i = i + 1;
    }
    true
}

fn starts_with_word_exec(rest: &[u8], kw: &str) -> (r: bool)
    ensures
        r == starts_with_word(rest@, kw.spec_bytes()),
{
    if !starts_with_str(rest, kw) {
        return false;
    }
    let k = kw.as_bytes();
    rest.len() == k.len() || !is_word_byte_exec(rest[k.len()])
}

/// Whether the line starts with `}` or a block-closing keyword.
pub fn is_terminator_line(line: &[u8]) -> (r: bool)
    ensures
        r == spec_is_terminator_line(line@),
{
    let rest = ltrim_blank_exec(line);
    if rest.len() == 0 {
        return false;
    }
    starts_with_str(rest, "}") || starts_with_word_exec(rest, "end") || starts_with_word_exec(
        rest,
        "else",
    ) || starts_with_word_exec(rest, "elsif") || starts_with_word_exec(rest, "when")
        || starts_with_word_exec(rest, "rescue") || starts_with_word_exec(rest, "ensure")
        || starts_with_word_exec(rest, "in ")
}

/// `line` without leading and trailing spaces and tabs.
pub fn trim_ascii_whitespace(line: &[u8]) -> (r: &[u8])
    ensures
        r@ == spec_trim_ascii_whitespace(line@),
{
    let l = ltrim_blank_exec(line);
    let mut n = l.len();
    assert(l@.subrange(0, l@.len() as int) =~= l@);
    while n > 0 && (l[n - 1] == 32u8 || l[n - 1] == 9u8)
        invariant
            n <= l@.len(),
            crate::cop::style::if_with_semicolon::rtrim_blank(l@)
                == crate::cop::style::if_with_semicolon::rtrim_blank(l@.subrange(0, n as int)),
        decreases n,
    {
        assert(l@.subrange(0, n as int).drop_last() =~= l@.subrange(0, n - 1));
        n = n - 1;
    }
    crate::bytes::subslice(l, 0, n)
}

/// Whether the keyword occurs in the line as a whole word.
pub fn contains_keyword(line: &[u8], keyword: &[u8]) -> (r: bool)
    ensures
        r == spec_contains_keyword(line@, keyword@),
{
    if keyword.len() == 0 || line.len() < keyword.len() {
        if keyword.len() > 0 {
            assert forall|i: int| !keyword_at(line@, keyword@, i) by {}
        }
        return false;
    }
    let k = keyword.len();
    let mut i: usize = 0;
    while i <= line.len() - k
        invariant
            0 < k == keyword@.len() <= line@.len(),
            forall|j: int| 0 <= j < i ==> !keyword_at(line@, keyword@, j),
        decreases line@.len() - i,
    {
        let w = crate::bytes::subslice(line, i, i + k);
        if crate::bytes::bytes_eq(w, keyword) {
            let left_ok = i == 0 || !is_word_byte_exec(line[i - 1]);
            let right_ok = i + k == line.len() || !is_word_byte_exec(line[i + k]);
            if left_ok && right_ok {
                assert(keyword_at(line@, keyword@, i as int));
                return true;
            }
        }
        if i == line.len() - k {
            assert forall|j: int| !keyword_at(line@, keyword@, j) by {
                if j > i {
                    assert(j + k > line@.len());
                }
            }
            return false;
        }
        i = i + 1;
    }
    false
}

/// Whether the line has both braces, or ends with `end` and holds `do`.
pub fn is_single_line_block(line: &[u8]) -> (r: bool)
    ensures
        r == spec_is_single_line_block(line@),
{
    if crate::bytes::contains_byte(line, 123u8) && crate::bytes::contains_byte(line, 125u8) {
        return true;
    }
    let t = trim_ascii_whitespace(line);
    crate::bytes::ends_with_str(t, "end") && contains_keyword(t, "do".as_bytes())
}

fn starts_with_example_word_exec(line: &[u8], kw: &str) -> (r: bool)
    ensures
        r == starts_with_example_word(line@, kw.spec_bytes()),
{
    if !starts_with_str(line, kw) {
        return false;
    }
    let k = kw.as_bytes().len();
    if line.len() == k {
        return true;
    }
    let next = line[k];
    next == 32u8 || next == 40u8 || next == 123u8
}

/// Whether the line starts with an RSpec example method.
pub fn starts_with_example_keyword(line: &[u8]) -> (r: bool)
    ensures
        r == spec_starts_with_example_keyword(line@),
{
    let r = starts_with_example_word_exec(line, "it") || starts_with_example_word_exec(
        line,
        "specify",
    ) || starts_with_example_word_exec(line, "example") || starts_with_example_word_exec(
        line,
        "scenario",
    ) || starts_with_example_word_exec(line, "its") || starts_with_example_word_exec(line, "fit")
        || starts_with_example_word_exec(line, "fspecify") || starts_with_example_word_exec(
        line,
        "fexample",
    ) || starts_with_example_word_exec(line, "fscenario") || starts_with_example_word_exec(
        line,
        "focus",
    ) || starts_with_example_word_exec(line, "xit") || starts_with_example_word_exec(
        line,
        "xspecify",
    ) || starts_with_example_word_exec(line, "xexample") || starts_with_example_word_exec(
        line,
        "xscenario",
    ) || starts_with_example_word_exec(line, "skip") || starts_with_example_word_exec(
        line,
        "pending",
    );
    r
}

fn deciding_line_exec(source: &SourceFile, k: usize) -> (r: Option<Vec<u8>>)
    ensures
        match r {
            Some(l) => deciding_line(source.text(), k as int) == Some(l@),
            None => deciding_line(source.text(), k as int) is None,
        },
{
    let len = source.len();
    proof {
        crate::source::lemma_nl_count_mono(source.text(), 0, source.text().len() as int);
    }
    let mut j = k;
    loop
        invariant
            k <= j,
            line_count(source.text()) <= len + 1,
            len < usize::MAX,
            deciding_line(source.text(), k as int) == deciding_line(source.text(), j as int),
        decreases line_count(source.text()) + 1 - j,
    {
        match source.line_at(j) {
            None => {
                return None;
            },
            Some(l) => {
                if is_blank_line_exec(l.as_slice()) {
                    return None;
                }
                if !is_comment_line(l.as_slice()) {
                    return Some(l);
                }
                assert(deciding_line(source.text(), j as int) == deciding_line(source.text(), j + 1));
                if j == usize::MAX {
                    assert(deciding_line(source.text(), j + 1) is None);
                    return None;
                }
                j = j + 1;
            },
        }
    }
}

pub fn leading_spaces_exec(s: &[u8]) -> (r: usize)
    ensures
        r == leading_spaces(s@),
{
    let mut i: usize = 0;
    assert(s@.subrange(0, s@.len() as int) =~= s@);
    while i < s.len() && s[i] == 32u8
        invariant
            i <= s@.len(),
            leading_spaces(s@) == i + leading_spaces(s@.subrange(i as int, s@.len() as int)),
        decreases s@.len() - i,
    {
        assert(s@.subrange(i as int, s@.len() as int).drop_first() =~= s@.subrange(i + 1, s@.len() as int));
        i = i + 1;
    }
    i
}

impl EmptyLineAfterExample {
    pub fn name(&self) -> &'static str {
        "RSpec/EmptyLineAfterExample"
    }

    /// The offense at `node`, if it is an example block not followed by an
    /// empty line; `allow_consecutive_one_liners` is the
    /// `AllowConsecutiveOneLiners` option (true by default).
    pub fn check_node(&self, source: &SourceFile, node: &Node, allow_consecutive_one_liners: bool) -> (r: Vec<Diagnostic>)
        ensures
            offenses(r@) == spec_check_node(source.text(), *node, allow_consecutive_one_liners),
    {
        let mut out: Vec<Diagnostic> = Vec::new();
        let name = match node {
            Node::Call { receiver: None, name, block: Some(_), .. } => name,
            _ => {
                return out;
            },
        };
        if !is_rspec_example(name.as_slice()) {
            return out;
        }
        let l = node.loc();
        let h = find_max_heredoc_end_offset(source.as_bytes(), node);
        let e = if h > l.end { h } else { l.end };
        let last = if e > 0 && e - 1 > l.start { e - 1 } else { l.start };
        let (end_line, _) = source.position(last);
        let (start_line, start_col) = source.position(l.start);
        let (stop_line, _) = source.position(l.end);
        let one_liner = start_line == stop_line;
        proof {
            crate::source::lemma_nl_count_mono(source.text(), 0, crate::source::clamp(source.text(), last as int));
        }
        if end_line == usize::MAX {
            let len = source.len();
            proof {
                crate::source::lemma_nl_count_mono(source.text(), 0, source.text().len() as int);
                assert(deciding_line(source.text(), end_line + 1) is None);
            }
            return out;
        }
        let line = match deciding_line_exec(source, end_line + 1) {
            None => {
                return out;
            },
            Some(line) => line,
        };
        let rest = ltrim_blank_exec(line.as_slice());
        if allow_consecutive_one_liners && one_liner && rest.len() > 0 && starts_with_example_keyword(rest)
            && is_single_line_block(rest) {
            return out;
        }
        if is_terminator_line(line.as_slice()) {
            return out;
        }
        let col = if one_liner {
            start_col
        } else {
            match source.line_at(end_line) {
                Some(b) => leading_spaces_exec(b.as_slice()),
                None => 0,
            }
        };
        let mut msg: Vec<u8> = Vec::new();
        push_str(&mut msg, "Add an empty line after `");
        push_bytes(&mut msg, name.as_slice());
        push_str(&mut msg, "`.");
        out.push(crate::diagnostic::diagnostic(end_line, col, msg));
        assert(offenses(out@) =~= spec_check_node(source.text(), *node, allow_consecutive_one_liners));
        out
    }
}

} // verus!
