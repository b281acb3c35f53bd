//! Offenses reported by the cops, corrections they propose, and the
//! helpers that build their messages.
use vstd::prelude::*;
use vstd::string::StringSliceAdditionalSpecFns;

verus! {

/// An offense at a 1-based line and 0-based byte column.
pub struct Diagnostic {
    pub line: usize,
    pub column: usize,
    pub message: Vec<u8>,
}

/// The mathematical value of a [`Diagnostic`].
pub struct Offense {
    pub line: int,
    pub column: int,
    pub message: Seq<u8>,
}

impl View for Diagnostic {
    type V = Offense;

    open spec fn view(&self) -> Offense {
        Offense { line: self.line as int, column: self.column as int, message: self.message@ }
    }
}

/// The values of a sequence of diagnostics.
pub open spec fn offenses(v: Seq<Diagnostic>) -> Seq<Offense> {
    v.map_values(|d: Diagnostic| d@)
}

/// The offense at `(line, column)` with `message`.
pub open spec fn offense(line: int, column: int, message: Seq<u8>) -> Offense {
    Offense { line, column, message }
}

/// A replacement of the source range `[start, end)` by `replacement`.
pub struct Correction {
    pub start: usize,
    pub end: usize,
    pub replacement: Vec<u8>,
}

/// The mathematical value of a [`Correction`].
pub struct Edit {
    pub start: int,
    pub end: int,
    pub replacement: Seq<u8>,
}

impl View for Correction {
    type V = Edit;

    open spec fn view(&self) -> Edit {
        Edit { start: self.start as int, end: self.end as int, replacement: self.replacement@ }
    }
}

/// The values of a sequence of corrections.
pub open spec fn edits(v: Seq<Correction>) -> Seq<Edit> {
    v.map_values(|c: Correction| c@)
}

pub fn diagnostic(line: usize, column: usize, message: Vec<u8>) -> (r: Diagnostic)
    ensures
        r@ == offense(line as int, column as int, message@),
{
    Diagnostic { line, column, message }
}

/// Appends the bytes of `s` to `v`.
pub fn push_str(v: &mut Vec<u8>, s: &str)
    ensures
        final(v)@ == old(v)@ + s.spec_bytes(),
{
    let b = s.as_bytes();
    let ghost old_v = v@;
    let mut i: usize = 0;
    while i < b.len()
        invariant
            b@ == s.spec_bytes(),
            i <= b@.len(),
            v@ == old_v + b@.subrange(0, i as int),
        decreases b@.len() - i,
    {
        v.push(b[i]);
        i = i + 1;
    }
    assert(b@.subrange(0, b@.len() as int) =~= b@);
}

/// Appends `s` to `v`.
pub fn push_bytes(v: &mut Vec<u8>, s: &[u8])
    ensures
        final(v)@ == old(v)@ + s@,
{
    let ghost old_v = v@;
    let mut i: usize = 0;
    while i < s.len()
        invariant
            i <= s@.len(),
            v@ == old_v + s@.subrange(0, i as int),
        decreases s@.len() - i,
    {
        v.push(s[i]);
        i = i + 1;
    }
    assert(s@.subrange(0, s@.len() as int) =~= s@);
}

/// A copy of `s`.
pub fn slice_to_vec(s: &[u8]) -> (r: Vec<u8>)
    ensures
        r@ == s@,
{
    let mut v: Vec<u8> = Vec::new();
    push_bytes(&mut v, s);
    assert(v@ =~= s@);
    v
}

/// The bytes of `s`.
pub fn str_bytes(s: &str) -> (r: Vec<u8>)
    ensures
        r@ == s.spec_bytes(),
{
    let mut v: Vec<u8> = Vec::new();
    push_str(&mut v, s);
    assert(v@ =~= s.spec_bytes());
    v
}

/// The decimal digits of `n`.
pub open spec fn decimal(n: nat) -> Seq<u8>
    decreases n,
{
    if n < 10 {
        seq![(48 + n) as u8]
    } else {
        decimal(n / 10).push((48 + n % 10) as u8)
    }
}

/// The decimal digits of `n`.
pub fn decimal_bytes(n: usize) -> (r: Vec<u8>)
    ensures
        r@ == decimal(n as nat),
    decreases n,
{
    if n < 10 {
        let mut v: Vec<u8> = Vec::new();
        v.push(48u8 + n as u8);
        assert(v@ =~= decimal(n as nat));
        v
    } else {
        let mut v = decimal_bytes(n / 10);
        v.push(48u8 + (n % 10) as u8);
        v
    }
}

/// The decimal digits of `n`.
pub fn decimal_u128(n: u128) -> (r: Vec<u8>)
    ensures
        r@ == decimal(n as nat),
    decreases n,
{
    if n < 10 {
        let mut v: Vec<u8> = Vec::new();
        v.push(48u8 + n as u8);
        assert(v@ =~= decimal(n as nat));
        v
    } else {
        let mut v = decimal_u128(n / 10);
        v.push(48u8 + (n % 10) as u8);
        v
    }
}

} // verus!
