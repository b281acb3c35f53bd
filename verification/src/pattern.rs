//! Regular expressions given in the configuration, compiled and matched by
//! the `regex` crate.
use vstd::prelude::*;

verus! {

#[verifier::external_type_specification]
#[verifier::external_body]
pub struct ExRegex(regex::Regex);

/// Whether `regex::Regex::new` accepts the pattern (whose bytes are UTF-8).
pub uninterp spec fn regex_compiles(pattern: Seq<u8>) -> bool;

/// Whether the regex compiled from `pattern` matches somewhere in `hay`
/// (both UTF-8 text, as bytes).
pub uninterp spec fn regex_is_match(pattern: Seq<u8>, hay: Seq<u8>) -> bool;

/// `regex::Regex::new` on the pattern text.  Claimed: it succeeds exactly
/// when `regex_compiles` holds of the pattern, a function of the pattern
/// alone; nothing is claimed of which patterns those are.
#[verifier::external_body]
fn regex_new(pattern: &[u8]) -> (r: Option<regex::Regex>)
    requires
        vstd::utf8::valid_utf8(pattern@),
    ensures
        r is Some == regex_compiles(pattern@),
{
    regex::Regex::new(std::str::from_utf8(pattern).unwrap_or("")).ok()
}

/// A compiled pattern together with its source text.  The regex in it was
/// compiled from exactly that text: `compile` is the only way to make one.
pub struct Pattern {
    source: Vec<u8>,
    re: regex::Regex,
}

impl View for Pattern {
    type V = Seq<u8>;

    /// The pattern's source text.
    closed spec fn view(&self) -> Seq<u8> {
        self.source@
    }
}

impl Pattern {
    /// The pattern compiled from `source`, if the `regex` crate accepts it.
    pub fn compile(source: &[u8]) -> (r: Option<Pattern>)
        requires
            vstd::utf8::valid_utf8(source@),
        ensures
            r is Some == regex_compiles(source@),
            r matches Some(p) ==> p@ == source@,
    {
        match regex_new(source) {
            Some(re) => {
                let mut v: Vec<u8> = Vec::new();
                crate::diagnostic::push_bytes(&mut v, source);
                Some(Pattern { source: v, re })
            },
            None => None,
        }
    }

    /// `regex::Regex::is_match` on the UTF-8 text `hay`.  Claimed: the answer
    /// is `regex_is_match` of the pattern's source and the text, a function
    /// of the two alone.
    #[verifier::external_body]
    pub(crate) fn is_match(&self, hay: &[u8]) -> (r: bool)
        requires
            vstd::utf8::valid_utf8(hay@),
        ensures
            r == regex_is_match(self@, hay@),
    {
        self.re.is_match(std::str::from_utf8(hay).unwrap_or(""))
    }
}

/// Whether one of the configured patterns compiles and matches `hay`.
pub open spec fn any_pattern_matches(patterns: Seq<Seq<u8>>, hay: Seq<u8>) -> bool {
    exists|i: int|
        0 <= i < patterns.len() && regex_compiles(#[trigger] patterns[i]) && regex_is_match(
            patterns[i],
            hay,
        )
}

/// Whether one of `patterns` (UTF-8 texts) compiles and matches `hay`.
pub fn any_pattern_matches_exec(patterns: &Vec<Vec<u8>>, hay: &[u8]) -> (r: bool)
    requires
        forall|i: int| 0 <= i < patterns@.len() ==> vstd::utf8::valid_utf8(#[trigger] patterns@[i]@),
        vstd::utf8::valid_utf8(hay@),
    ensures
        r == any_pattern_matches(patterns@.map_values(|e: Vec<u8>| e@), hay@),
{
    let ghost w = patterns@.map_values(|e: Vec<u8>| e@);
    let mut i: usize = 0;
    while i < patterns.len()
        invariant
            i <= patterns@.len(),
            w == patterns@.map_values(|e: Vec<u8>| e@),
            forall|j: int| 0 <= j < patterns@.len() ==> vstd::utf8::valid_utf8(#[trigger] patterns@[j]@),
            vstd::utf8::valid_utf8(hay@),
            forall|j: int| 0 <= j < i ==> !(regex_compiles(#[trigger] w[j]) && regex_is_match(w[j], hay@)),
        decreases patterns@.len() - i,
    {
        assert(w[i as int] == patterns@[i as int]@);
        match Pattern::compile(patterns[i].as_slice()) {
            Some(p) => {
                if p.is_match(hay) {
                    return true;
                }
            },
            None => {},
        }
        i = i + 1;
    }
    false
}

} // verus!
