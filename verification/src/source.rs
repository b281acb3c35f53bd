//! The text of a Ruby source file and its line structure.
use vstd::prelude::*;

verus! {

/// A byte range `[start, end)` in the source text.
#[derive(Clone, Copy, PartialEq, Eq, Structural, Debug)]
pub struct Loc {
    pub start: usize,
    pub end: usize,
}

/// The number of line breaks in `s[0..end)`.
pub open spec fn nl_count(s: Seq<u8>, end: int) -> nat
    decreases end,
{
    if end <= 0 {
        0
    } else {
        nl_count(s, end - 1) + if s[end - 1] == 10u8 { 1nat } else { 0nat }
    }
}

/// The offset at which the line holding offset `p` starts.
pub open spec fn line_start(s: Seq<u8>, p: int) -> int
    decreases p,
{
    if p <= 0 {
        0
    } else if s[p - 1] == 10u8 {
        p
    } else {
        line_start(s, p - 1)
    }
}

/// The offset of the line break that ends the line holding offset `p`
/// (or the length of `s` on the last line).
pub open spec fn line_end(s: Seq<u8>, p: int) -> int
    decreases s.len() - p,
{
    if p >= s.len() {
        s.len() as int
    } else if s[p] == 10u8 {
        p
    } else {
        line_end(s, p + 1)
    }
}

/// The offset where 1-based line `k` starts (lines are separated by `\n`).
pub open spec fn start_of_line(s: Seq<u8>, k: int) -> int
    decreases k,
{
    if k <= 1 {
        0
    } else {
        line_end(s, start_of_line(s, k - 1)) + 1
    }
}

/// The number of lines: the pieces of the text between line breaks.
pub open spec fn line_count(s: Seq<u8>) -> nat {
    nl_count(s, s.len() as int) + 1
}

/// The bytes of 1-based line `k`, without its line break.
pub open spec fn line_bytes(s: Seq<u8>, k: int) -> Seq<u8> {
    s.subrange(start_of_line(s, k), line_end(s, start_of_line(s, k)))
}

/// All lines of the text, in order.
pub open spec fn split_lines(s: Seq<u8>) -> Seq<Seq<u8>> {
    Seq::new(line_count(s), |i: int| line_bytes(s, i + 1))
}

pub proof fn lemma_line_end_bounds(s: Seq<u8>, p: int)
    requires
        0 <= p <= s.len(),
    ensures
        p <= line_end(s, p) <= s.len(),
        line_end(s, p) < s.len() ==> s[line_end(s, p)] == 10u8,
        forall|q: int| p <= q < line_end(s, p) ==> s[q] != 10u8,
    decreases s.len() - p,
{
    if p < s.len() && s[p] != 10u8 {
        lemma_line_end_bounds(s, p + 1);
    }
}

pub proof fn lemma_line_start_bounds(s: Seq<u8>, p: int)
    requires
        0 <= p <= s.len(),
    ensures
        0 <= line_start(s, p) <= p,
        forall|q: int| line_start(s, p) <= q < p ==> s[q] != 10u8,
        line_start(s, p) > 0 ==> s[line_start(s, p) - 1] == 10u8,
    decreases p,
{
    if p > 0 && s[p - 1] != 10u8 {
        lemma_line_start_bounds(s, p - 1);
    }
}

pub proof fn lemma_nl_count_mono(s: Seq<u8>, a: int, b: int)
    requires
        0 <= a <= b <= s.len(),
    ensures
        nl_count(s, a) <= nl_count(s, b),
        nl_count(s, b) <= nl_count(s, a) + (b - a),
    decreases b - a,
{
    if a < b {
        lemma_nl_count_mono(s, a, b - 1);
    }
}

/// An offset clamped to the text.
pub open spec fn clamp(s: Seq<u8>, p: int) -> int {
    if p > s.len() { s.len() as int } else if p < 0 { 0 } else { p }
}

/// The 1-based line of offset `p` (clamped to the text).
pub open spec fn spec_line_of(s: Seq<u8>, p: int) -> int {
    nl_count(s, clamp(s, p)) + 1int
}

/// The 0-based byte column of offset `p` (clamped to the text).
pub open spec fn spec_column_of(s: Seq<u8>, p: int) -> int {
    clamp(s, p) - line_start(s, clamp(s, p))
}

/// A Ruby source file: its bytes.
pub struct SourceFile {
    pub(crate) content: Vec<u8>,
}

impl SourceFile {
    /// A file is never as long as the whole address space.
    #[verifier::type_invariant]
    spec fn fits(&self) -> bool {
        self.content@.len() < usize::MAX
    }

    pub closed spec fn text(&self) -> Seq<u8> {
        self.content@
    }

    /// The lines of the file.
    pub open spec fn lines(&self) -> Seq<Seq<u8>> {
        split_lines(self.text())
    }

    pub fn new(content: Vec<u8>) -> (r: SourceFile)
        requires
            content@.len() < usize::MAX,
        ensures
            r.text() == content@,
    {
        SourceFile { content }
    }

    /// The length of the text, which is below `usize::MAX`.
    pub fn len(&self) -> (r: usize)
        ensures
            r == self.text().len(),
            r < usize::MAX,
    {
        proof {
            use_type_invariant(self);
        }
        self.content.len()
    }

    pub fn as_bytes(&self) -> (r: &[u8])
        ensures
            r@ == self.text(),
    {
        self.content.as_slice()
    }

    /// The 1-based line and 0-based byte column of `offset`.
    pub fn offset_to_line_col(&self, offset: usize) -> (r: (usize, usize))
        requires
            offset <= self.text().len(),
        ensures
            r.0 == nl_count(self.text(), offset as int) + 1,
            r.1 == offset - line_start(self.text(), offset as int),
    {
        proof {
            use_type_invariant(self);
        }
        let ghost s = self.content@;
        let mut line: usize = 1;
        let mut i: usize = 0;
        let mut start: usize = 0;
        while i < offset
            invariant
                offset <= s.len(),
                s == self.content@,
                i <= offset,
                line == nl_count(s, i as int) + 1,
                start == line_start(s, i as int),
                start <= i,
                line <= i + 1,
                s.len() < usize::MAX,
            decreases offset - i,
        {
            if self.content[i] == 10u8 {
                line = line + 1;
                start = i + 1;
            }
            i = i + 1;
        }
        (line, offset - start)
    }

    /// The position of `offset` clamped to the text: its 1-based line and
    /// 0-based byte column.
    pub fn position(&self, offset: usize) -> (r: (usize, usize))
        ensures
            r.0 == spec_line_of(self.text(), offset as int),
            r.1 == spec_column_of(self.text(), offset as int),
    {
        let o = if offset > self.content.len() { self.content.len() } else { offset };
        self.offset_to_line_col(o)
    }

    /// The offset of the end of the line holding `p`.
    pub fn line_end_from(&self, p: usize) -> (r: usize)
        requires
            p <= self.text().len(),
        ensures
            r == line_end(self.text(), p as int),
    {
        let mut q = p;
        while q < self.content.len() && self.content[q] != 10u8
            invariant
                p <= q <= self.content@.len(),
                line_end(self.content@, q as int) == line_end(self.content@, p as int),
            decreases self.content@.len() - q,
        {
            q = q + 1;
        }
        q
    }

    /// The offset of the start of the line holding `p`.
    pub fn line_start_from(&self, p: usize) -> (r: usize)
        requires
            p <= self.text().len(),
        ensures
            r == line_start(self.text(), p as int),
    {
        let mut q = p;
        while q > 0 && self.content[q - 1] != 10u8
            invariant
                q <= p <= self.content@.len(),
                line_start(self.content@, q as int) == line_start(self.content@, p as int),
            decreases q,
        {
            q = q - 1;
        }
        q
    }

    /// The number of lines.
    pub fn line_count(&self) -> (r: usize)
        ensures
            r == line_count(self.text()),
    {
        proof {
            use_type_invariant(self);
        }
        let ghost s = self.content@;
        let mut n: usize = 1;
        let mut i: usize = 0;
        while i < self.content.len()
            invariant
                s == self.content@,
                i <= s.len(),
                n == nl_count(s, i as int) + 1,
                n <= i + 1,
                s.len() < usize::MAX,
            decreases s.len() - i,
        {
            if self.content[i] == 10u8 {
                n = n + 1;
            }
            i = i + 1;
        }
        n
    }

    /// The offsets `[start, end)` of 1-based line `k`, if the file has that line.
    pub fn line_range(&self, k: usize) -> (r: Option<(usize, usize)>)
        ensures
            match r {
                Some((a, b)) => {
                    &&& 1 <= k <= line_count(self.text())
                    &&& a <= b <= self.text().len()
                    &&& a == start_of_line(self.text(), k as int)
                    &&& b == line_end(self.text(), a as int)
                },
                None => k < 1 || k > line_count(self.text()),
            },
    {
        let ghost s = self.content@;
        if k == 0 {
            return None;
        }
        let mut j: usize = 1;
        let mut p: usize = 0;
        proof {
            lemma_line_end_bounds(s, 0);
        }
        while j < k
            invariant
                s == self.content@,
                1 <= j <= k,
                p <= s.len(),
                p == start_of_line(s, j as int),
                nl_count(s, p as int) == j - 1,
                p == 0 || s[p - 1] == 10u8,
            decreases k - j,
        {
            let e = self.line_end_from(p);
            proof {
                lemma_line_end_bounds(s, p as int);
                lemma_count_across_line(s, p as int);
            }
            if e >= self.content.len() {
                proof {
                    lemma_count_is_total(s, p as int);
                }
                return None;
            }
            p = e + 1;
            j = j + 1;
        }
        let e = self.line_end_from(p);
        proof {
            lemma_line_end_bounds(s, p as int);
            lemma_count_across_line(s, p as int);
            lemma_nl_count_mono(s, p as int, s.len() as int);
        }
        Some((p, e))
    }

    /// The bytes of 1-based line `k`, if the file has that line.
    pub fn line_at(&self, k: usize) -> (r: Option<Vec<u8>>)
        ensures
            match r {
                Some(v) => 1 <= k <= line_count(self.text()) && v@ == line_bytes(
                    self.text(),
                    k as int,
                ),
                None => k < 1 || k > line_count(self.text()),
            },
    {
        match self.line_range(k) {
            Some((a, b)) => Some(slice_range(self.content.as_slice(), a, b)),
            None => None,
        }
    }
}

/// The line breaks before the end of the line starting at `p` are those before `p`.
pub proof fn lemma_count_across_line(s: Seq<u8>, p: int)
    requires
        0 <= p <= s.len(),
    ensures
        nl_count(s, line_end(s, p)) == nl_count(s, p),
        line_end(s, p) < s.len() ==> nl_count(s, line_end(s, p) + 1) == nl_count(s, p) + 1,
    decreases s.len() - p,
{
    if p < s.len() && s[p] != 10u8 {
        lemma_count_across_line(s, p + 1);
    }
}

/// When the line starting at `p` runs to the end, no line break follows `p`.
pub proof fn lemma_count_is_total(s: Seq<u8>, p: int)
    requires
        0 <= p <= s.len(),
        line_end(s, p) >= s.len(),
    ensures
        nl_count(s, s.len() as int) == nl_count(s, p),
{
    lemma_line_end_bounds(s, p);
    lemma_count_across_line(s, p);
}

/// A copy of `s[a..b)`.
pub fn slice_range(s: &[u8], a: usize, b: usize) -> (r: Vec<u8>)
    requires
        a <= b <= s@.len(),
    ensures
        r@ == s@.subrange(a as int, b as int),
{
    let mut v: Vec<u8> = Vec::new();
    let mut i = a;
    while i < b
        invariant
            a <= i <= b <= s@.len(),
            v@ == s@.subrange(a as int, i as int),
        decreases b - i,
    {
        v.push(s[i]);
        i = i + 1;
    }
    v
}

} // verus!
