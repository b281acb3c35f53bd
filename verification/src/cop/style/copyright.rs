//! Style/Copyright: a file without a copyright notice matching the
//! configured pattern.
use vstd::prelude::*;
use vstd::string::StringSliceAdditionalSpecFns;
use crate::bytes::{starts_with, starts_with_str, str_trim, trim_text, utf8_is_valid};
use crate::diagnostic::{diagnostic, edits, offense, offenses, push_bytes, push_str, Correction, Diagnostic, Edit, Offense};
use crate::pattern::{regex_compiles, regex_is_match, Pattern};
use crate::source::{line_bytes, line_count, SourceFile};

verus! {

/// The cop.
pub struct Copyright;

/// `s` without its leading `#` characters.
pub open spec fn strip_hashes(s: Seq<u8>) -> Seq<u8>
    decreases s.len(),
{
    if s.len() > 0 && s[0] == 35u8 {
        strip_hashes(s.drop_first())
    } else {
        s
    }
}

/// Whether a line holds the notice: as the text of a `#` comment, or as the
/// whole (trimmed) line when it is not a `=begin`/`=end` marker.
pub open spec fn line_has_notice(pattern: Seq<u8>, line: Seq<u8>) -> bool {
    vstd::utf8::valid_utf8(line) && {
        let ls = str_trim(line);
        let comment = strip_hashes(ls);
        ||| (starts_with(ls, "#".spec_bytes()) && vstd::utf8::valid_utf8(comment) && regex_is_match(pattern, str_trim(comment)))
        ||| (!starts_with(ls, "=begin".spec_bytes()) && !starts_with(ls, "=end".spec_bytes()) && regex_is_match(pattern, ls))
    }
}

/// Some line among the first `k` holds the notice.
pub open spec fn notice_upto(src: Seq<u8>, pattern: Seq<u8>, k: int) -> bool
    decreases k,
{
    k > 0 && (notice_upto(src, pattern, k - 1) || line_has_notice(pattern, line_bytes(src, k)))
}

pub open spec fn copyright_message(pattern: Seq<u8>) -> Seq<u8> {
    "Include a copyright notice matching `".spec_bytes() + pattern + "` before any code.".spec_bytes()
}

/// The offense (at the start of the file) and the correction that inserts
/// the configured notice, when no line holds a notice.  Nothing is reported
/// without a notice to insert, or when the pattern does not compile.
pub open spec fn spec_check_lines(src: Seq<u8>, pattern: Seq<u8>, autocorrect_notice: Seq<u8>) -> (Seq<Offense>, Seq<Edit>) {
    if autocorrect_notice.len() == 0 || !regex_compiles(pattern) || notice_upto(src, pattern, line_count(src) as int) {
        (Seq::empty(), Seq::empty())
    } else {
        (
            seq![offense(1, 0, copyright_message(pattern))],
            seq![Edit { start: 0, end: 0, replacement: autocorrect_notice + "\n".spec_bytes() }],
        )
    }
}

fn strip_hashes_exec(s: &[u8]) -> (r: &[u8])
    ensures
        r@ == strip_hashes(s@),
{
    let mut i: usize = 0;
    assert(s@.subrange(0, s@.len() as int) =~= s@);
    while i < s.len() && s[i] == 35u8
        invariant
            i <= s@.len(),
            strip_hashes(s@) == strip_hashes(s@.subrange(i as int, s@.len() as int)),
        decreases s@.len() - i,
    {
        assert(s@.subrange(i as int, s@.len() as int).drop_first() =~= s@.subrange(i + 1, s@.len() as int));
        i = i + 1;
    }
    crate::bytes::subslice(s, i, s.len())
}

fn line_has_notice_exec(p: &Pattern, line: &[u8]) -> (r: bool)
    ensures
        r == line_has_notice(p@, line@),
{
    if !utf8_is_valid(line) {
        return false;
    }
    let ls = trim_text(line);
    let comment = strip_hashes_exec(ls.as_slice());
    if starts_with_str(ls.as_slice(), "#") && utf8_is_valid(comment) {
        let c = trim_text(comment);
        if p.is_match(c.as_slice()) {
            return true;
        }
    }
    !starts_with_str(ls.as_slice(), "=begin") && !starts_with_str(ls.as_slice(), "=end") && p.is_match(ls.as_slice())
}

impl Copyright {
    pub fn name(&self) -> &'static str {
        "Style/Copyright"
    }

    /// The offense and correction for a whole file; `notice` is the pattern
    /// a notice must match (UTF-8 text), `autocorrect_notice` the notice the
    /// correction inserts.
    pub fn check_lines(&self, source: &SourceFile, notice: &[u8], autocorrect_notice: &[u8]) -> (r: (Vec<Diagnostic>, Vec<Correction>))
        requires
            vstd::utf8::valid_utf8(notice@),
        ensures
            (offenses(r.0@), edits(r.1@)) == spec_check_lines(source.text(), notice@, autocorrect_notice@),
    {
        let mut out: Vec<Diagnostic> = Vec::new();
        let mut fixes: Vec<Correction> = Vec::new();
        let ghost res = spec_check_lines(source.text(), notice@, autocorrect_notice@);
        if autocorrect_notice.len() == 0 {
            assert(offenses(out@) =~= res.0 && edits(fixes@) =~= res.1);
            return (out, fixes);
        }
        let p = match Pattern::compile(notice) {
            Some(p) => p,
            None => {
                assert(offenses(out@) =~= res.0 && edits(fixes@) =~= res.1);
                return (out, fixes);
            },
        };
        let ghost src = source.text();
        let n = source.line_count();
        let mut k: usize = 0;
        while k < n
            invariant
                k <= n,
                n == line_count(src),
                src == source.text(),
                p@ == notice@,
                autocorrect_notice@.len() > 0,
                regex_compiles(notice@),
                res == spec_check_lines(src, notice@, autocorrect_notice@),
                out@.len() == 0,
                fixes@.len() == 0,
                !notice_upto(src, notice@, k as int),
            decreases n - k,
        {
            match source.line_at(k + 1) {
                Some(l) => {
                    if line_has_notice_exec(&p, l.as_slice()) {
                        proof {
                            lemma_notice_stays(src, notice@, k + 1, n as int);
                        }
                        assert(offenses(out@) =~= res.0 && edits(fixes@) =~= res.1);
                        return (out, fixes);
                    }
                    assert(notice_upto(src, notice@, k + 1) == notice_upto(src, notice@, k as int));
                },
                None => {},
            }
            k = k + 1;
        }
        let mut m: Vec<u8> = Vec::new();
        push_str(&mut m, "Include a copyright notice matching `");
        push_bytes(&mut m, notice);
        push_str(&mut m, "` before any code.");
        out.push(diagnostic(1, 0, m));
        let mut rep: Vec<u8> = Vec::new();
        push_bytes(&mut rep, autocorrect_notice);
        push_str(&mut rep, "\n");
        fixes.push(Correction { start: 0, end: 0, replacement: rep });
        assert(offenses(out@) =~= res.0 && edits(fixes@) =~= res.1);
        (out, fixes)
    }
}

proof fn lemma_notice_stays(src: Seq<u8>, pattern: Seq<u8>, a: int, b: int)
    requires
        0 < a <= b,
        notice_upto(src, pattern, a) || line_has_notice(pattern, line_bytes(src, a)),
    ensures
        notice_upto(src, pattern, b),
    decreases b - a,
{
    if a < b {
        lemma_notice_stays(src, pattern, a, b - 1);
    }
}

/// A file in which some line holds a notice matching the pattern is never
/// reported.
pub proof fn law_file_with_notice_is_not_reported(src: Seq<u8>, pattern: Seq<u8>, autocorrect_notice: Seq<u8>)
    requires
        notice_upto(src, pattern, line_count(src) as int),
    ensures
        spec_check_lines(src, pattern, autocorrect_notice).0.len() == 0,
        spec_check_lines(src, pattern, autocorrect_notice).1.len() == 0,
{
}

/// An offense comes exactly with the correction that inserts the notice,
/// and there is at most one of each.
pub proof fn law_offense_iff_correction(src: Seq<u8>, pattern: Seq<u8>, autocorrect_notice: Seq<u8>)
    ensures
        spec_check_lines(src, pattern, autocorrect_notice).0.len() == spec_check_lines(src, pattern, autocorrect_notice).1.len(),
        spec_check_lines(src, pattern, autocorrect_notice).0.len() <= 1,
{
}

} // verus!
