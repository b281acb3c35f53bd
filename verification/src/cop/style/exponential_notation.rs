//! Style/ExponentialNotation: float literals in exponential notation whose
//! mantissa and exponent do not follow the configured style.
//!
//! The float value of the mantissa is read by the caller: this module splits
//! the literal, reads the exponent and the integral mantissa, and decides.
use vstd::prelude::*;
use vstd::string::StringSliceAdditionalSpecFns;
use crate::ast::Node;
use crate::bytes::{lower, src_range, src_range_exec, to_ascii_lower};
use crate::diagnostic::{diagnostic, offense, offenses, str_bytes, Diagnostic, Offense};
use crate::source::{spec_column_of, spec_line_of, SourceFile};

verus! {

/// The cop.
pub struct ExponentialNotation;

/// The configured `EnforcedStyle`.
#[derive(Clone, Copy, PartialEq, Eq, Structural, Debug)]
pub enum ExponentialStyle {
    Scientific,
    Engineering,
    Integral,
    /// Any other configured value: nothing is reported.
    Other,
}

/// Where the float value `m` of a mantissa lies: `scientific` is
/// `1 <= |m| < 10`, `engineering` is `0.1 <= |m| < 1000`.
#[derive(Clone, Copy, PartialEq, Eq, Structural, Debug)]
pub struct MantissaRange {
    pub scientific: bool,
    pub engineering: bool,
}

/// `s` without its underscores.
pub open spec fn without_underscores(s: Seq<u8>) -> Seq<u8>
    decreases s.len(),
{
    if s.len() == 0 {
        s
    } else if s.last() == 95u8 {
        without_underscores(s.drop_last())
    } else {
        without_underscores(s.drop_last()).push(s.last())
    }
}

/// The first index of byte `b` in `s`, if any.
pub open spec fn first_index(s: Seq<u8>, b: u8) -> Option<int>
    decreases s.len(),
{
    if s.len() == 0 {
        None
    } else if s[0] == b {
        Some(0)
    } else {
        match first_index(s.drop_first(), b) {
            Some(i) => Some(i + 1),
            None => None,
        }
    }
}

/// Whether every byte of `s` is ASCII.
pub open spec fn all_ascii(s: Seq<u8>) -> bool {
    forall|i: int| 0 <= i < s.len() ==> s[i] < 128
}

/// The mantissa and exponent texts of a literal in exponential notation:
/// lower-cased, without a leading `-`, split at the first `e`, underscores
/// dropped. `None` when the literal has no `e`, or holds a byte that is not
/// ASCII (no such literal has a float mantissa and an integer exponent).
pub open spec fn notation_parts(lit: Seq<u8>) -> Option<(Seq<u8>, Seq<u8>)> {
    let l = lower(lit);
    let w = if l.len() > 0 && l[0] == 45u8 { l.drop_first() } else { l };
    if !all_ascii(lit) {
        None
    } else {
        match first_index(w, 101u8) {
            Some(k) => Some((without_underscores(w.subrange(0, k)), without_underscores(w.subrange(k + 1, w.len() as int)))),
            None => None,
        }
    }
}

/// The value of a string of ASCII digits.
pub open spec fn digits_value(s: Seq<u8>) -> nat
    decreases s.len(),
{
    if s.len() == 0 {
        0
    } else {
        digits_value(s.drop_last()) * 10 + (s.last() - 48) as nat
    }
}

pub open spec fn is_digit(b: u8) -> bool {
    48 <= b <= 57
}

/// `s` without a leading sign.
pub open spec fn unsigned_part(s: Seq<u8>) -> Seq<u8> {
    if s.len() > 0 && (s[0] == 45u8 || s[0] == 43u8) { s.drop_first() } else { s }
}

pub open spec fn all_digits(d: Seq<u8>) -> bool {
    forall|i: int| 0 <= i < d.len() ==> is_digit(#[trigger] d[i])
}

/// What `i64::from_str` makes of `s`: an optional sign, then one or more
/// ASCII digits, whose value must fit in an `i64`.
pub open spec fn parse_i64(s: Seq<u8>) -> Option<int> {
    let neg = s.len() > 0 && s[0] == 45u8;
    let d = unsigned_part(s);
    let v: int = if neg { -digits_value(d) } else { digits_value(d) as int };
    if d.len() > 0 && all_digits(d) && i64::MIN <= v <= i64::MAX {
        Some(v)
    } else {
        None
    }
}

pub open spec fn scientific_msg() -> Seq<u8> {
    "Use a mantissa >= 1 and < 10.".spec_bytes()
}

pub open spec fn engineering_msg() -> Seq<u8> {
    "Use an exponent divisible by 3 and a mantissa >= 0.1 and < 1000.".spec_bytes()
}

pub open spec fn integral_msg() -> Seq<u8> {
    "Use an integer as mantissa, without trailing zero.".spec_bytes()
}

/// The source text of a float literal node.
pub open spec fn float_text(src: Seq<u8>, n: Node) -> Option<Seq<u8>> {
    match n {
        Node::Float { loc } => Some(src_range(src, loc.start as int, loc.end as int)),
        _ => None,
    }
}

/// The mantissa text of the float literal `n`, if it is in exponential
/// notation.
pub open spec fn mantissa_of(src: Seq<u8>, n: Node) -> Option<Seq<u8>> {
    match float_text(src, n) {
        Some(lit) => match notation_parts(lit) {
            Some((m, _)) => Some(m),
            None => None,
        },
        None => None,
    }
}

/// The message for a literal whose mantissa text is `m` (of float value in
/// `range`) and whose exponent is `e`, if the style is broken.
pub open spec fn violation(style: ExponentialStyle, m: Seq<u8>, range: MantissaRange, e: int) -> Option<Seq<u8>> {
    match style {
        ExponentialStyle::Scientific => if !range.scientific { Some(scientific_msg()) } else { None },
        ExponentialStyle::Engineering => if e % 3 != 0 || !range.engineering { Some(engineering_msg()) } else { None },
        ExponentialStyle::Integral => if m.contains(46u8) {
            Some(integral_msg())
        } else {
            match parse_i64(m) {
                Some(v) => if v != 0 && v % 10 == 0 { Some(integral_msg()) } else { None },
                None => None,
            }
        },
        ExponentialStyle::Other => None,
    }
}

/// The offense at `n`: a float literal whose mantissa text parses as a float
/// (`mantissa` is then where its value lies) and whose exponent parses as an
/// `i64`, and which breaks the style.
pub open spec fn spec_check_node(
    src: Seq<u8>,
    n: Node,
    style: ExponentialStyle,
    mantissa: Option<MantissaRange>,
) -> Seq<Offense> {
    match (float_text(src, n), mantissa) {
        (Some(lit), Some(range)) => match notation_parts(lit) {
            Some((m, e)) => match parse_i64(e) {
                Some(ev) => match violation(style, m, range, ev) {
                    Some(msg) => seq![offense(
                        spec_line_of(src, n.spec_loc().start as int),
                        spec_column_of(src, n.spec_loc().start as int),
                        msg,
                    )],
                    None => Seq::empty(),
                },
                None => Seq::empty(),
            },
            None => Seq::empty(),
        },
        _ => Seq::empty(),
    }
}

proof fn lemma_digits_prefix_le(s: Seq<u8>, i: int)
    requires
        0 <= i <= s.len(),
    ensures
        digits_value(s.subrange(0, i)) <= digits_value(s),
    decreases s.len() - i,
{
    if i < s.len() {
        lemma_digits_prefix_le(s, i + 1);
        assert(s.subrange(0, i + 1).drop_last() =~= s.subrange(0, i));
    } else {
        assert(s.subrange(0, i) =~= s);
    }
}

proof fn lemma_overflow(d: Seq<u8>, k: int, acc: int, dv: int, limit: int)
    requires
        0 <= k < d.len(),
        acc == digits_value(d.subrange(0, k)),
        dv == d[k] - 48,
        0 <= dv <= 9,
        9 <= limit,
        acc > (limit - dv) / 10,
    ensures
        digits_value(d) > limit,
{
    assert(acc * 10 + dv > limit) by (nonlinear_arith)
        requires
            acc > (limit - dv) / 10,
            dv <= 9,
            limit >= 9,
    ;
    lemma_digits_prefix_le(d, k + 1);
    assert(d.subrange(0, k + 1).drop_last() =~= d.subrange(0, k));
    assert(digits_value(d.subrange(0, k + 1)) == acc * 10 + dv);
}

/// `i64::from_str`, on bytes.
pub fn parse_i64_exec(s: &[u8]) -> (r: Option<i64>)
    ensures
        match r {
            Some(v) => parse_i64(s@) == Some(v as int),
            None => parse_i64(s@) is None,
        },
{
    let neg = s.len() > 0 && s[0] == 45u8;
    let signed = s.len() > 0 && (s[0] == 45u8 || s[0] == 43u8);
    let start: usize = if signed { 1 } else { 0 };
    let ghost d = unsigned_part(s@);
    assert(d =~= s@.subrange(start as int, s@.len() as int));
    if start >= s.len() {
        return None;
    }
    // The largest magnitude the sign allows.
    let limit: u64 = if neg { 9223372036854775808u64 } else { 9223372036854775807u64 };
    let mut acc: u64 = 0;
    let mut i: usize = start;
    while i < s.len()
        invariant
            start <= i <= s@.len(),
            start < s@.len(),
            d == s@.subrange(start as int, s@.len() as int),
            acc as int == digits_value(d.subrange(0, i - start)),
            acc <= limit,
            limit == (if neg { 9223372036854775808u64 } else { 9223372036854775807u64 }),
            neg == (s@.len() > 0 && s@[0] == 45u8),
            d == unsigned_part(s@),
            forall|j: int| 0 <= j < i - start ==> is_digit(#[trigger] d[j]),
        decreases s@.len() - i,
    {
        let b = s[i];
        assert(d[i - start] == b);
        assert(d.subrange(0, i - start + 1).drop_last() =~= d.subrange(0, i - start));
        if b < 48 || b > 57 {
            assert(!is_digit(d[i - start]));
            return None;
        }
        let dv: u64 = (b - 48) as u64;
        if acc > (limit - dv) / 10 {
            proof {
                lemma_overflow(d, (i - start) as int, acc as int, dv as int, limit as int);
            }
            return None;
        }
        assert(acc * 10 + dv <= limit) by (nonlinear_arith)
            requires
                acc <= (limit - dv) / 10,
                dv <= limit,
        ;
        acc = acc * 10 + dv;
        i = i + 1;
    }
    assert(d.subrange(0, i - start) =~= d);
    if neg {
        if acc == 9223372036854775808u64 {
            Some(-9223372036854775807i64 - 1)
        } else {
            let v: i64 = acc as i64;
            Some(-v)
        }
    } else {
        Some(acc as i64)
    }
}

proof fn lemma_first_index(s: Seq<u8>, b: u8)
    ensures
        first_index(s, b) matches Some(k) ==> 0 <= k < s.len() && s[k] == b,
    decreases s.len(),
{
    if s.len() > 0 && s[0] != b {
        lemma_first_index(s.drop_first(), b);
    }
}

fn without_underscores_exec(s: &[u8]) -> (r: Vec<u8>)
    ensures
        r@ == without_underscores(s@),
{
    let mut v: Vec<u8> = Vec::new();
    let mut i: usize = 0;
    while i < s.len()
        invariant
            i <= s@.len(),
            v@ == without_underscores(s@.subrange(0, i as int)),
        decreases s@.len() - i,
    {
        assert(s@.subrange(0, i + 1).drop_last() =~= s@.subrange(0, i as int));
        if s[i] != 95u8 {
            v.push(s[i]);
        }
        i = i + 1;
    }
    assert(s@.subrange(0, s@.len() as int) =~= s@);
    v
}

fn first_index_exec(s: &[u8], b: u8) -> (r: Option<usize>)
    ensures
        match r {
            Some(k) => first_index(s@, b) == Some(k as int),
            None => first_index(s@, b) is None,
        },
{
    let mut i: usize = s.len();
    let mut found: Option<usize> = None;
    // Walk back from the end, so that each step prepends one byte.
    while i > 0
        invariant
            i <= s@.len(),
            match found {
                Some(k) => first_index(s@.subrange(i as int, s@.len() as int), b) == Some(k - i) && i <= k < s@.len(),
                None => first_index(s@.subrange(i as int, s@.len() as int), b) is None,
            },
        decreases i,
    {
        let j = i - 1;
        assert(s@.subrange(j as int, s@.len() as int).drop_first() =~= s@.subrange(i as int, s@.len() as int));
        if s[j] == b {
            found = Some(j);
        }
        i = j;
    }
    assert(s@.subrange(0, s@.len() as int) =~= s@);
    found
}

fn all_ascii_exec(s: &[u8]) -> (r: bool)
    ensures
        r == all_ascii(s@),
{
    let mut i: usize = 0;
    while i < s.len()
        invariant
            i <= s@.len(),
            forall|j: int| 0 <= j < i ==> s@[j] < 128,
        decreases s@.len() - i,
    {
        if s[i] >= 128 {
            return false;
        }
        i = i + 1;
    }
    true
}

/// The mantissa and exponent texts of `lit`, as `notation_parts` says.
fn notation_parts_exec(lit: &[u8]) -> (r: Option<(Vec<u8>, Vec<u8>)>)
    ensures
        match r {
            Some((m, e)) => notation_parts(lit@) == Some((m@, e@)),
            None => notation_parts(lit@) is None,
        },
{
    if !all_ascii_exec(lit) {
        return None;
    }
    let l = to_ascii_lower(lit);
    let w: &[u8] = if l.len() > 0 && l[0] == 45u8 {
        crate::bytes::subslice(l.as_slice(), 1, l.len())
    } else {
        l.as_slice()
    };
    assert(l@.len() > 0 && l@[0] == 45u8 ==> w@ =~= l@.drop_first());
    proof {
        lemma_first_index(w@, 101u8);
    }
    match first_index_exec(w, 101u8) {
        Some(k) => {
            let m = without_underscores_exec(crate::bytes::subslice(w, 0, k));
            let e = without_underscores_exec(crate::bytes::subslice(w, k + 1, w.len()));
            Some((m, e))
        },
        None => None,
    }
}

/// `|v|`.
fn magnitude(v: i64) -> (r: u64)
    ensures
        r as int == if v < 0 { -v } else { v as int },
{
    if v < 0 {
        let w: i128 = v as i128;
        (-w) as u64
    } else {
        v as u64
    }
}

fn contains_dot(s: &[u8]) -> (r: bool)
    ensures
        r == s@.contains(46u8),
{
    crate::bytes::contains_byte(s, 46u8)
}

impl ExponentialNotation {
    pub fn name(&self) -> &'static str {
        "Style/ExponentialNotation"
    }

    /// The mantissa text of the float literal `node` in exponential notation:
    /// what the caller reads as a float to make the `MantissaRange`.
    pub fn mantissa_text(&self, source: &SourceFile, node: &Node) -> (r: Option<Vec<u8>>)
        ensures
            match r {
                Some(m) => mantissa_of(source.text(), *node) == Some(m@),
                None => mantissa_of(source.text(), *node) is None,
            },
    {
        match node {
            Node::Float { loc } => {
                let lit = src_range_exec(source.as_bytes(), loc.start, loc.end);
                match notation_parts_exec(lit) {
                    Some((m, e)) => {
                        assert(float_text(source.text(), *node) == Some(lit@) && notation_parts(lit@) == Some((m@, e@)));
                        Some(m)
                    },
                    None => None,
                }
            },
            _ => None,
        }
    }

    /// The offense at `node`; `mantissa` is where the float value of its
    /// mantissa text lies, or `None` when that text is no float.
    pub fn check_node(
        &self,
        source: &SourceFile,
        node: &Node,
        style: ExponentialStyle,
        mantissa: Option<MantissaRange>,
    ) -> (r: Vec<Diagnostic>)
        ensures
            offenses(r@) == spec_check_node(source.text(), *node, style, mantissa),
    {
        let mut out: Vec<Diagnostic> = Vec::new();
        let ghost src = source.text();
        let loc = match node {
            Node::Float { loc } => *loc,
            _ => {
                assert(offenses(out@) =~= spec_check_node(src, *node, style, mantissa));
                return out;
            },
        };
        let range = match mantissa {
            Some(r) => r,
            None => {
                assert(offenses(out@) =~= spec_check_node(src, *node, style, mantissa));
                return out;
            },
        };
        let lit = src_range_exec(source.as_bytes(), loc.start, loc.end);
        let (m, e) = match notation_parts_exec(lit) {
            Some(p) => p,
            None => {
                assert(offenses(out@) =~= spec_check_node(src, *node, style, mantissa));
                return out;
            },
        };
        let ev = match parse_i64_exec(e.as_slice()) {
            Some(v) => v,
            None => {
                assert(offenses(out@) =~= spec_check_node(src, *node, style, mantissa));
                return out;
            },
        };
        let msg: Option<&str> = match style {
            ExponentialStyle::Scientific => if !range.scientific { Some("Use a mantissa >= 1 and < 10.") } else { None },
            ExponentialStyle::Engineering => if magnitude(ev) % 3 != 0 || !range.engineering {
                Some("Use an exponent divisible by 3 and a mantissa >= 0.1 and < 1000.")
            } else {
                None
            },
            ExponentialStyle::Integral => if contains_dot(m.as_slice()) {
                Some("Use an integer as mantissa, without trailing zero.")
            } else {
                match parse_i64_exec(m.as_slice()) {
                    Some(v) => if v != 0 && magnitude(v) % 10 == 0 {
                        Some("Use an integer as mantissa, without trailing zero.")
                    } else {
                        None
                    },
                    None => None,
                }
            },
            ExponentialStyle::Other => None,
        };
        match msg {
            Some(text) => {
                let (line, column) = source.position(loc.start);
                out.push(diagnostic(line, column, str_bytes(text)));
            },
            None => {},
        }
        proof {
            let vm = violation(style, m@, range, ev as int);
            assert(msg is Some <==> vm is Some);
            if msg is Some {
                assert(msg->0.spec_bytes() == vm->0);
            }
        }
        assert(offenses(out@) =~= spec_check_node(src, *node, style, mantissa));
        out
    }
}

} // verus!
