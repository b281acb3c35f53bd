//! RSpec/ImplicitSubject: `is_expected`, `should` and `should_not` without a
//! receiver.
//!
//! The enclosing example is found by scanning the source lines upwards.  By
//! style, implicit subjects are allowed in one-line examples
//! (`single_line_only`, the default), also in one-statement examples
//! (`single_statement_only`), or nowhere (`disallow`); `its` blocks are
//! always exempt.
use vstd::prelude::*;
use vstd::string::StringSliceAdditionalSpecFns;
use crate::ast::Node;
use crate::bytes::{eq_str, ltrim_blank, ltrim_blank_exec, starts_with, starts_with_str};
use crate::cop::rspec::empty_line_after_example::{
    contains_keyword, is_word_byte, is_word_byte_exec, spec_contains_keyword,
};
use crate::diagnostic::{offense, offenses, str_bytes, Diagnostic, Offense};
use crate::source::{line_bytes, line_count, spec_column_of, spec_line_of, SourceFile};

verus! {

/// The cop.
pub struct ImplicitSubject;

/// The `EnforcedStyle` option.
#[derive(Clone, Copy, PartialEq, Eq, Structural, Debug)]
pub enum ImplicitSubjectStyle {
    SingleLineOnly,
    SingleStatementOnly,
    Disallow,
    /// Any other configured value: implicit subjects are flagged everywhere
    /// except in `its` blocks.
    Other,
}

/// The example methods, in the order in which lines are matched against them.
pub open spec fn example_methods() -> Seq<Seq<u8>> {
    seq![
        "it".spec_bytes(),
        "specify".spec_bytes(),
        "example".spec_bytes(),
        "scenario".spec_bytes(),
        "its".spec_bytes(),
        "xit".spec_bytes(),
        "xspecify".spec_bytes(),
        "xexample".spec_bytes(),
        "xscenario".spec_bytes(),
        "fit".spec_bytes(),
        "fspecify".spec_bytes(),
        "fexample".spec_bytes(),
        "fscenario".spec_bytes(),
        "skip".spec_bytes(),
        "pending".spec_bytes(),
    ]
}

/// A letter, a digit or `_`.
pub open spec fn spec_is_identifier_byte(b: u8) -> bool {
    is_word_byte(b)
}

/// A byte that may follow an example method name: space, `(`, `{`, `'`, `"`.
pub open spec fn opens_example(b: u8) -> bool {
    b == 32u8 || b == 40u8 || b == 123u8 || b == 39u8 || b == 34u8
}

/// Whether the (trimmed) line starts with method `m` followed by a space,
/// parenthesis, brace or quote.
pub open spec fn begins_with_method(t: Seq<u8>, m: Seq<u8>) -> bool {
    t.len() > m.len() && starts_with(t, m) && opens_example(t[m.len() as int])
}

/// Whether method `m` occurs in `t` at `s`, not preceded by an identifier
/// byte and followed by a space, parenthesis, brace or quote.
pub open spec fn method_at(t: Seq<u8>, m: Seq<u8>, s: int) -> bool {
    &&& 0 <= s
    &&& s + m.len() < t.len()
    &&& t.subrange(s, s + m.len()) == m
    &&& !(s > 0 && is_word_byte(t[s - 1]))
    &&& opens_example(t[s + m.len()])
}

/// Whether the line contains method `m` as an example call.
pub open spec fn contains_method(t: Seq<u8>, m: Seq<u8>) -> bool {
    t.len() > m.len() && exists|s: int| method_at(t, m, s)
}

/// The first example method, from position `i` of the list on, that the line
/// starts with (`anywhere == false`) or contains (`anywhere == true`).
pub open spec fn first_method(t: Seq<u8>, i: int, anywhere: bool) -> Option<Seq<u8>>
    decreases 15 - i,
{
    if i < 0 || i >= 15 {
        None
    } else if (if anywhere {
        contains_method(t, example_methods()[i])
    } else {
        begins_with_method(t, example_methods()[i])
    }) {
        Some(example_methods()[i])
    } else {
        first_method(t, i + 1, anywhere)
    }
}

/// Whether a line opens a scope that no example encloses.
pub open spec fn opens_scope(t: Seq<u8>) -> bool {
    ||| starts_with(t, "describe ".spec_bytes())
    ||| starts_with(t, "context ".spec_bytes())
    ||| starts_with(t, "RSpec.".spec_bytes())
    ||| starts_with(t, "class ".spec_bytes())
    ||| starts_with(t, "module ".spec_bytes())
}

/// The text of 1-based line `k`, or nothing past the end of the file.
pub open spec fn line_or_empty(src: Seq<u8>, k: int) -> Seq<u8> {
    if 1 <= k <= line_count(src) {
        line_bytes(src, k)
    } else {
        Seq::empty()
    }
}

/// The example method and line of the example enclosing line `from`,
/// scanning lines `k, k-1, ..., 1`.
pub open spec fn enclosing_from(src: Seq<u8>, from: int, k: int) -> Option<(Seq<u8>, int)>
    decreases k,
{
    if k < 1 {
        None
    } else {
        let t = ltrim_blank(line_or_empty(src, k));
        if t.len() == 0 {
            enclosing_from(src, from, k - 1)
        } else if k == from && first_method(t, 0, true) is Some {
            Some((first_method(t, 0, true)->0, k))
        } else if first_method(t, 0, false) is Some {
            Some((first_method(t, 0, false)->0, k))
        } else if opens_scope(t) {
            None
        } else {
            enclosing_from(src, from, k - 1)
        }
    }
}

/// The example enclosing line `from`.
pub open spec fn spec_find_enclosing_example(src: Seq<u8>, from: int) -> Option<(Seq<u8>, int)> {
    enclosing_from(src, from, from)
}

/// Whether a (trimmed) line closes the block: `end`, `end ...`.
pub open spec fn is_end_line(t: Seq<u8>) -> bool {
    t == "end".spec_bytes() || starts_with(t, "end ".spec_bytes()) || starts_with(
        t,
        "end\n".spec_bytes(),
    )
}

/// The number of non-blank lines from line `k` up to the first `end` line.
pub open spec fn statements_from(src: Seq<u8>, k: int) -> int
    decreases line_count(src) + 1 - k,
{
    if k < 1 || k > line_count(src) {
        0
    } else {
        let t = ltrim_blank(line_or_empty(src, k));
        if t.len() == 0 {
            statements_from(src, k + 1)
        } else if is_end_line(t) {
            0
        } else {
            1 + statements_from(src, k + 1)
        }
    }
}

/// Whether the block of the example on `example_line` holds one statement.
pub open spec fn spec_is_single_statement_block(src: Seq<u8>, example_line: int) -> bool {
    statements_from(src, example_line + 1) == 1
}

/// Whether the implicit subject on `line` is in a one-line example.
pub open spec fn in_single_line_example(src: Seq<u8>, line: int) -> bool {
    match spec_find_enclosing_example(src, line) {
        Some((_, el)) => line == el && (line_or_empty(src, el).contains(125u8)
            || spec_contains_keyword(line_or_empty(src, el), "end".spec_bytes())),
        None => false,
    }
}

/// The offense at `n`, if it is an implicit subject that the style forbids.
pub open spec fn spec_check_node(src: Seq<u8>, n: Node, style: ImplicitSubjectStyle) -> Seq<Offense> {
    if n matches Node::Call { receiver: None, name, .. } && (name@ == "is_expected".spec_bytes()
        || name@ == "should".spec_bytes() || name@ == "should_not".spec_bytes()) {
        let line = spec_line_of(src, n.spec_loc().start as int);
        let col = spec_column_of(src, n.spec_loc().start as int);
        let enclosing = spec_find_enclosing_example(src, line);
        let flagged = if enclosing matches Some((m, _)) && m == "its".spec_bytes() {
            false
        } else if style == ImplicitSubjectStyle::Disallow {
            true
        } else if style == ImplicitSubjectStyle::SingleLineOnly {
            !in_single_line_example(src, line)
        } else if style == ImplicitSubjectStyle::SingleStatementOnly {
            !in_single_line_example(src, line) && !(enclosing matches Some((_, el))
                && spec_is_single_statement_block(src, el))
        } else {
            true
        };
        if flagged {
            seq![offense(line, col, "Don't use implicit subject.".spec_bytes())]
        } else {
            Seq::empty()
        }
    } else {
        Seq::empty()
    }
}

/// A letter, a digit or `_`.
pub fn is_identifier_byte(b: u8) -> (r: bool)
    ensures
        r == spec_is_identifier_byte(b),
{
    is_word_byte_exec(b)
}

fn methods_list() -> (r: Vec<&'static str>)
    ensures
        r@.map_values(|s: &str| s.spec_bytes()) == example_methods(),
        r@.len() == 15,
{
    let v = vec![
        "it",
        "specify",
        "example",
        "scenario",
        "its",
        "xit",
        "xspecify",
        "xexample",
        "xscenario",
        "fit",
        "fspecify",
        "fexample",
        "fscenario",
        "skip",
        "pending",
    ];
    assert(v@.map_values(|s: &str| s.spec_bytes()) =~= example_methods());
    v
}

fn begins_with_method_exec(t: &[u8], m: &str) -> (r: bool)
    ensures
        r == begins_with_method(t@, m.spec_bytes()),
{
    let mb = m.as_bytes();
    t.len() > mb.len() && starts_with_str(t, m) && {
        let b = t[mb.len()];
        b == 32u8 || b == 40u8 || b == 123u8 || b == 39u8 || b == 34u8
    }
}

fn contains_method_exec(t: &[u8], m: &str) -> (r: bool)
    ensures
        r == contains_method(t@, m.spec_bytes()),
{
    let mb = m.as_bytes();
    if t.len() <= mb.len() {
        return false;
    }
    let k = mb.len();
    let mut s: usize = 0;
    while s <= t.len() - k
        invariant
            k == mb@.len(),
            mb@ == m.spec_bytes(),
            k < t@.len(),
            forall|j: int| 0 <= j < s ==> !method_at(t@, mb@, j),
        decreases t@.len() - s,
    {
        if crate::bytes::bytes_eq(crate::bytes::subslice(t, s, s + k), mb) {
            let before_ok = !(s > 0 && is_identifier_byte(t[s - 1]));
            if before_ok && s + k < t.len() {
                let b = t[s + k];
                if b == 32u8 || b == 40u8 || b == 123u8 || b == 39u8 || b == 34u8 {
                    assert(method_at(t@, mb@, s as int));
                    return true;
                }
            }
        }
        if s == t.len() - k {
            assert forall|j: int| !method_at(t@, mb@, j) by {
                if j > s {
                    assert(j + k > t@.len());
                }
            }
            return false;
        }
        s = s + 1;
    }
    false
}

fn first_method_exec(t: &[u8], anywhere: bool) -> (r: Option<&'static [u8]>)
    ensures
        match r {
            Some(m) => first_method(t@, 0, anywhere) == Some(m@),
            None => first_method(t@, 0, anywhere) is None,
        },
{
    let methods = methods_list();
    let mut i: usize = 0;
    while i < 15
        invariant
            i <= 15,
            methods@.len() == 15,
            methods@.map_values(|s: &str| s.spec_bytes()) == example_methods(),
            first_method(t@, 0, anywhere) == first_method(t@, i as int, anywhere),
        decreases 15 - i,
    {
        let m = methods[i];
        assert(m.spec_bytes() == example_methods()[i as int]);
        let hit = if anywhere {
            contains_method_exec(t, m)
        } else {
            begins_with_method_exec(t, m)
        };
        if hit {
            return Some(m.as_bytes());
        }
        i = i + 1;
    }
    None
}

/// The example method the (trimmed) line starts with, if any.
pub fn line_example_method(trimmed: &[u8]) -> (r: Option<&'static [u8]>)
    ensures
        match r {
            Some(m) => first_method(trimmed@, 0, false) == Some(m@),
            None => first_method(trimmed@, 0, false) is None,
        },
{
    first_method_exec(trimmed, false)
}

/// The first example method (in list order) that the line contains as a call.
pub fn line_contains_example_method(trimmed: &[u8]) -> (r: Option<&'static [u8]>)
    ensures
        match r {
            Some(m) => first_method(trimmed@, 0, true) == Some(m@),
            None => first_method(trimmed@, 0, true) is None,
        },
{
    first_method_exec(trimmed, true)
}

/// Whether the line holds the keyword `end` as a whole word.
pub fn line_contains_end_keyword(line: &[u8]) -> (r: bool)
    ensures
        r == spec_contains_keyword(line@, "end".spec_bytes()),
{
    contains_keyword(line, "end".as_bytes())
}

fn line_or_empty_exec(source: &SourceFile, k: usize) -> (r: Vec<u8>)
    ensures
        r@ == line_or_empty(source.text(), k as int),
{
    match source.line_at(k) {
        Some(l) => l,
        None => Vec::new(),
    }
}

/// The method and line of the example enclosing line `from_line`.
pub fn find_enclosing_example(source: &SourceFile, from_line: usize) -> (r: Option<(&'static [u8], usize)>)
    ensures
        match r {
            Some((m, l)) => spec_find_enclosing_example(source.text(), from_line as int) == Some(
                (m@, l as int),
            ),
            None => spec_find_enclosing_example(source.text(), from_line as int) is None,
        },
{
    let mut k = from_line;
    while k >= 1
        invariant
            k <= from_line,
            spec_find_enclosing_example(source.text(), from_line as int) == enclosing_from(
                source.text(),
                from_line as int,
                k as int,
            ),
        decreases k,
    {
        let line = line_or_empty_exec(source, k);
        let t = ltrim_blank_exec(line.as_slice());
        if t.len() > 0 {
            if k == from_line {
                match line_contains_example_method(t) {
                    Some(m) => {
                        return Some((m, k));
                    },
                    None => {},
                }
            }
            match line_example_method(t) {
                Some(m) => {
                    return Some((m, k));
                },
                None => {},
            }
            if starts_with_str(t, "describe ") || starts_with_str(t, "context ") || starts_with_str(
                t,
                "RSpec.",
            ) || starts_with_str(t, "class ") || starts_with_str(t, "module ") {
                return None;
            }
        }
        k = k - 1;
    }
    None
}

/// Whether the block of the example on `example_line` holds one statement
/// (non-blank lines before the first `end` line).
pub fn is_single_statement_block(source: &SourceFile, example_line: usize, call_line: usize) -> (r: bool)
    ensures
        r == spec_is_single_statement_block(source.text(), example_line as int),
{
    let total = source.line_count();
    let mut count: usize = 0;
    if example_line >= total {
        assert(statements_from(source.text(), example_line + 1) == 0);
        return false;
    }
    let mut k = example_line + 1;
    loop
        invariant
            example_line + 1 <= k <= total,
            total == line_count(source.text()),
            count <= k - (example_line + 1),
            statements_from(source.text(), example_line + 1) == count + statements_from(
                source.text(),
                k as int,
            ),
        decreases total - k,
    {
        let line = line_or_empty_exec(source, k);
        let t = ltrim_blank_exec(line.as_slice());
        if t.len() > 0 {
            if eq_str(t, "end") || starts_with_str(t, "end ") || starts_with_str(t, "end\n") {
                return count == 1;
            }
            count = count + 1;
        }
        if k == total {
            assert(statements_from(source.text(), k + 1) == 0);
            return count == 1;
        }
        k = k + 1;
    }
}

impl ImplicitSubject {
    pub fn name(&self) -> &'static str {
        "RSpec/ImplicitSubject"
    }

    /// The offense at `node`, if it is an implicit subject the style forbids.
    pub fn check_node(&self, source: &SourceFile, node: &Node, style: ImplicitSubjectStyle) -> (r: Vec<Diagnostic>)
        ensures
            offenses(r@) == spec_check_node(source.text(), *node, style),
    {
        let mut out: Vec<Diagnostic> = Vec::new();
        let implicit = match node {
            Node::Call { receiver: None, name, .. } => eq_str(name.as_slice(), "is_expected")
                || eq_str(name.as_slice(), "should") || eq_str(name.as_slice(), "should_not"),
            _ => false,
        };
        if !implicit {
            return out;
        }
        let (line, column) = source.position(node.loc().start);
        let enclosing = find_enclosing_example(source, line);
        match enclosing {
            Some((m, _)) => {
                if eq_str(m, "its") {
                    return out;
                }
            },
            None => {},
        }
        let flagged = match style {
            ImplicitSubjectStyle::Disallow => true,
            ImplicitSubjectStyle::Other => true,
            _ => {
                let single = match enclosing {
                    Some((_, el)) => {
                        let eb = line_or_empty_exec(source, el);
                        line == el && (crate::bytes::contains_byte(eb.as_slice(), 125u8)
                            || line_contains_end_keyword(eb.as_slice()))
                    },
                    None => false,
                };
                if single {
                    false
                } else if style == ImplicitSubjectStyle::SingleStatementOnly {
                    match enclosing {
                        Some((_, el)) => !is_single_statement_block(source, el, line),
                        None => true,
                    }
                } else {
                    true
                }
            },
        };
        if flagged {
            out.push(crate::diagnostic::diagnostic(line, column, str_bytes("Don't use implicit subject.")));
        }
        assert(offenses(out@) =~= spec_check_node(source.text(), *node, style));
        out
    }
}

} // verus!
