//! Style/AmbiguousEndlessMethodDefinition: an endless method whose body
//! holds a low-precedence operator (`and`, `or`, modifier `if`, ...) outside
//! parentheses, so that the operator does not belong to the body.
use vstd::prelude::*;
use vstd::string::StringSliceAdditionalSpecFns;
use crate::bytes::{
    find_from, find_from_exec, starts_with, starts_with_str, str_trim_end, str_trim_start,
    trim_end_text, trim_start_text, utf8_is_valid, lemma_find_from,
};
use crate::diagnostic::{diagnostic, offense, offenses, push_str, str_bytes, Diagnostic, Offense};
use crate::source::{line_count, line_bytes, SourceFile};

verus! {

/// The cop.
pub struct AmbiguousEndlessMethodDefinition;

/// The low-precedence operators, with the spaces around them, in the order
/// they are tried.
pub open spec fn low_precedence_op(i: int) -> Seq<u8> {
    if i == 0 {
        " and ".spec_bytes()
    } else if i == 1 {
        " or ".spec_bytes()
    } else if i == 2 {
        " if ".spec_bytes()
    } else if i == 3 {
        " unless ".spec_bytes()
    } else if i == 4 {
        " while ".spec_bytes()
    } else {
        " until ".spec_bytes()
    }
}

/// The operator's name as the message gives it.
pub open spec fn op_name(i: int) -> Seq<u8> {
    if i == 0 {
        "and".spec_bytes()
    } else if i == 1 {
        "or".spec_bytes()
    } else if i == 2 {
        "if".spec_bytes()
    } else if i == 3 {
        "unless".spec_bytes()
    } else if i == 4 {
        "while".spec_bytes()
    } else {
        "until".spec_bytes()
    }
}

/// Opening minus closing parentheses in `s`.
pub open spec fn paren_depth(s: Seq<u8>) -> int
    decreases s.len(),
{
    if s.len() == 0 {
        0
    } else {
        paren_depth(s.drop_last()) + if s.last() == 40u8 { 1int } else if s.last() == 41u8 { -1int } else { 0int }
    }
}

/// The first operator, from the `i`-th on, whose first occurrence in the
/// body stands outside parentheses.
pub open spec fn first_op_from(body: Seq<u8>, i: int) -> Option<int>
    decreases 6 - i,
{
    if i < 0 || i >= 6 {
        None
    } else {
        match find_from(body, low_precedence_op(i), 0) {
            Some(p) => if 0 <= p <= body.len() && paren_depth(body.subrange(0, p)) == 0 {
                Some(i)
            } else {
                first_op_from(body, i + 1)
            },
            None => first_op_from(body, i + 1),
        }
    }
}

/// The ambiguous operator of a line that defines an endless method
/// (`def name = body`), if any.
pub open spec fn endless_op(line: Seq<u8>) -> Option<int> {
    if !vstd::utf8::valid_utf8(line) {
        None
    } else {
        let t = str_trim_start(str_trim_end(line));
        if !starts_with(t, "def ".spec_bytes()) {
            None
        } else {
            let a = t.subrange(4, t.len() as int);
            match find_from(a, " = ".spec_bytes(), 0) {
                Some(e) => if 0 <= e && e + 3 <= a.len() {
                    first_op_from(a.subrange(e + 3, a.len() as int), 0)
                } else {
                    None
                },
                None => None,
            }
        }
    }
}

pub open spec fn endless_message(i: int) -> Seq<u8> {
    "Avoid using `".spec_bytes() + op_name(i) + "` statements with endless methods.".spec_bytes()
}

/// The offenses of lines `1..=k`.
pub open spec fn lines_upto(src: Seq<u8>, k: int) -> Seq<Offense>
    decreases k,
{
    if k <= 0 {
        Seq::empty()
    } else {
        lines_upto(src, k - 1) + match endless_op(line_bytes(src, k)) {
            Some(i) => seq![offense(k, 0, endless_message(i))],
            None => Seq::empty(),
        }
    }
}

/// The offenses of a file, for a target Ruby version in hundredths (`300`
/// is 3.0): none below 3.0, which has no endless methods.
pub open spec fn spec_check_lines(src: Seq<u8>, ruby_version: u32) -> Seq<Offense> {
    if ruby_version < 300 {
        Seq::empty()
    } else {
        lines_upto(src, line_count(src) as int)
    }
}

fn op_exec(i: usize) -> (r: &'static str)
    ensures
        r.spec_bytes() == low_precedence_op(i as int),
{
    if i == 0 {
        " and "
    } else if i == 1 {
        " or "
    } else if i == 2 {
        " if "
    } else if i == 3 {
        " unless "
    } else if i == 4 {
        " while "
    } else {
        " until "
    }
}

fn op_name_exec(i: usize) -> (r: &'static str)
    ensures
        r.spec_bytes() == op_name(i as int),
{
    if i == 0 {
        "and"
    } else if i == 1 {
        "or"
    } else if i == 2 {
        "if"
    } else if i == 3 {
        "unless"
    } else if i == 4 {
        "while"
    } else {
        "until"
    }
}

fn paren_depth_exec(s: &[u8]) -> (r: i128)
    ensures
        r == paren_depth(s@),
{
    let mut d: i128 = 0;
    let mut i: usize = 0;
    assert(s@.subrange(0, 0) =~= Seq::<u8>::empty());
    while i < s.len()
        invariant
            i <= s@.len(),
            d == paren_depth(s@.subrange(0, i as int)),
            -(i as int) <= d <= i as int,
        decreases s@.len() - i,
    {
        assert(s@.subrange(0, i + 1).drop_last() =~= s@.subrange(0, i as int));
        if s[i] == 40u8 {
            d = d + 1;
        } else if s[i] == 41u8 {
            d = d - 1;
        }
        i = i + 1;
    }
    assert(s@.subrange(0, s@.len() as int) =~= s@);
    d
}

fn first_op_exec(body: &[u8]) -> (r: Option<usize>)
    ensures
        match r {
            Some(i) => first_op_from(body@, 0) == Some(i as int),
            None => first_op_from(body@, 0) is None,
        },
{
    let mut i: usize = 0;
    while i < 6
        invariant
            i <= 6,
            first_op_from(body@, 0) == first_op_from(body@, i as int),
        decreases 6 - i,
    {
        let op = op_exec(i);
        match find_from_exec(body, op.as_bytes(), 0) {
            Some(p) => {
                proof {
                    lemma_find_from(body@, op.spec_bytes(), 0);
                }
                if paren_depth_exec(crate::bytes::subslice(body, 0, p)) == 0 {
                    return Some(i);
                }
            },
            None => {},
        }
        i = i + 1;
    }
    None
}

fn endless_op_exec(line: &[u8]) -> (r: Option<usize>)
    ensures
        match r {
            Some(i) => endless_op(line@) == Some(i as int),
            None => endless_op(line@) is None,
        },
{
    if !utf8_is_valid(line) {
        return None;
    }
    let e = trim_end_text(line);
    let t = trim_start_text(e.as_slice());
    if !starts_with_str(t.as_slice(), "def ") {
        return None;
    }
    proof {
        reveal_strlit("def ");
        reveal_strlit(" = ");
        broadcast use vstd::string::group_string_axioms;
        assert(vstd::string::is_ascii("def "));
        assert(vstd::string::is_ascii(" = "));
        assert("def ".spec_bytes().len() == 4);
        assert(" = ".spec_bytes().len() == 3);
    }
    let tl = t.len();
    let a = crate::bytes::subslice(t.as_slice(), 4, tl);
    match find_from_exec(a, " = ".as_bytes(), 0) {
        Some(p) => {
            proof {
                lemma_find_from(a@, " = ".spec_bytes(), 0);
            }
            let al = a.len();
            first_op_exec(crate::bytes::subslice(a, p + 3, al))
        },
        None => None,
    }
}

impl AmbiguousEndlessMethodDefinition {
    pub fn name(&self) -> &'static str {
        "Style/AmbiguousEndlessMethodDefinition"
    }

    /// The offenses of the file's lines (at column 0); `ruby_version` is the
    /// target Ruby version in hundredths.
    pub fn check_lines(&self, source: &SourceFile, ruby_version: u32) -> (r: Vec<Diagnostic>)
        ensures
            offenses(r@) == spec_check_lines(source.text(), ruby_version),
    {
        let mut out: Vec<Diagnostic> = Vec::new();
        assert(offenses(out@) =~= Seq::<Offense>::empty());
        if ruby_version < 300 {
            return out;
        }
        let ghost src = source.text();
        let n = source.line_count();
        let mut k: usize = 0;
        while k < n
            invariant
                k <= n,
                n == line_count(src),
                src == source.text(),
                offenses(out@) == lines_upto(src, k as int),
            decreases n - k,
        {
            match source.line_at(k + 1) {
                Some(l) => {
                    match endless_op_exec(l.as_slice()) {
                        Some(i) => {
                            let mut m: Vec<u8> = Vec::new();
                            push_str(&mut m, "Avoid using `");
                            push_str(&mut m, op_name_exec(i));
                            push_str(&mut m, "` statements with endless methods.");
                            let ghost b = out@;
                            out.push(diagnostic(k + 1, 0, m));
                            assert(offenses(out@) =~= offenses(b) + seq![offenses(out@).last()]);
                        },
                        None => {},
                    }
                },
                None => {},
            }
            assert(offenses(out@) =~= lines_upto(src, k + 1));
            k = k + 1;
        }
        out
    }
}

} // verus!
