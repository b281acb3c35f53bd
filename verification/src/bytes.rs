//! Byte-level helpers shared by the cops.
use vstd::prelude::*;
use vstd::string::StringSliceAdditionalSpecFns;

verus! {

/// Whether two byte sequences are equal.
pub fn bytes_eq(a: &[u8], b: &[u8]) -> (r: bool)
    ensures
        r == (a@ == b@),
{
    if a.len() != b.len() {
        return false;
    }
    let mut i: usize = 0;
    while i < a.len()
        invariant
            a@.len() == b@.len(),
            i <= a@.len(),
            forall|j: int| 0 <= j < i ==> a@[j] == b@[j],
        decreases a@.len() - i,
    {
        if a[i] != b[i] {
            return false;
        }
        i = i + 1;
    }
    assert(a@ =~= b@);
    true
}

/// Whether `a` equals the bytes of `s`.
pub fn eq_str(a: &[u8], s: &str) -> (r: bool)
    ensures
        r == (a@ == s.spec_bytes()),
{
    bytes_eq(a, s.as_bytes())
}

/// Whether two token sequences are equal.
pub fn u64s_eq(a: &[u64], b: &[u64]) -> (r: bool)
    ensures
        r == (a@ == b@),
{
    if a.len() != b.len() {
        return false;
    }
    let mut i: usize = 0;
    while i < a.len()
        invariant
            a@.len() == b@.len(),
            i <= a@.len(),
            forall|j: int| 0 <= j < i ==> a@[j] == b@[j],
        decreases a@.len() - i,
    {
        if a[i] != b[i] {
            return false;
        }
        i = i + 1;
    }
    assert(a@ =~= b@);
    true
}

/// `src[a..b)`, with offsets past the end of the text read as its end.
pub open spec fn src_range(src: Seq<u8>, a: int, b: int) -> Seq<u8> {
    let hi = if b > src.len() { src.len() as int } else { b };
    let lo = if a > hi { hi } else { a };
    src.subrange(lo, hi)
}

/// `src[a..b)`, with offsets past the end of the text read as its end.
pub fn src_range_exec(src: &[u8], a: usize, b: usize) -> (r: &[u8])
    ensures
        r@ == src_range(src@, a as int, b as int),
{
    let hi = if b > src.len() { src.len() } else { b };
    let lo = if a > hi { hi } else { a };
    subslice(src, lo, hi)
}

/// Whether `b` is valid UTF-8.
#[verifier::external_body]
pub fn utf8_is_valid(b: &[u8]) -> (r: bool)
    ensures
        r == vstd::utf8::valid_utf8(b@),
{
    std::str::from_utf8(b).is_ok()
}

/// The text that lossy UTF-8 decoding makes of `b` (invalid sequences
/// become U+FFFD), as bytes.
pub uninterp spec fn utf8_lossy(b: Seq<u8>) -> Seq<u8>;

/// `String::from_utf8_lossy`: text in valid UTF-8 comes back unchanged; the
/// result is always UTF-8 (it is a `String`); of other text only that it is
/// the lossy decoding is stated.
#[verifier::external_body]
pub fn lossy_utf8(b: &[u8]) -> (r: Vec<u8>)
    ensures
        r@ == utf8_lossy(b@),
        vstd::utf8::valid_utf8(b@) ==> r@ == b@,
        vstd::utf8::valid_utf8(r@),
{
    String::from_utf8_lossy(b).into_owned().into_bytes()
}

/// The sub-slice `s[a..b)`.
pub fn subslice(s: &[u8], a: usize, b: usize) -> (r: &[u8])
    requires
        a <= b <= s@.len(),
    ensures
        r@ == s@.subrange(a as int, b as int),
{
    vstd::slice::slice_subrange(s, a, b)
}

/// ASCII lower-casing of one byte.
pub open spec fn lower_byte(b: u8) -> u8 {
    if 65 <= b <= 90 { (b + 32) as u8 } else { b }
}

/// ASCII lower-casing of a byte string.
pub open spec fn lower(s: Seq<u8>) -> Seq<u8> {
    s.map_values(|b: u8| lower_byte(b))
}

pub fn to_ascii_lower(s: &[u8]) -> (r: Vec<u8>)
    ensures
        r@ == lower(s@),
{
    let mut v: Vec<u8> = Vec::new();
    let mut i: usize = 0;
    while i < s.len()
        invariant
            i <= s@.len(),
            v@ == lower(s@.subrange(0, i as int)),
        decreases s@.len() - i,
    {
        let b = s[i];
        let c = if 65 <= b && b <= 90 { b + 32 } else { b };
        v.push(c);
        assert(lower(s@.subrange(0, i + 1)) =~= lower(s@.subrange(0, i as int)).push(lower_byte(b)));
        i = i + 1;
    }
    assert(s@.subrange(0, s@.len() as int) =~= s@);
    v
}

/// Whether `s` starts with `p`.
pub open spec fn starts_with(s: Seq<u8>, p: Seq<u8>) -> bool {
    p.len() <= s.len() && s.subrange(0, p.len() as int) == p
}

/// Whether `s` ends with `p`.
pub open spec fn ends_with(s: Seq<u8>, p: Seq<u8>) -> bool {
    p.len() <= s.len() && s.subrange(s.len() - p.len(), s.len() as int) == p
}

/// Whether `needle` occurs in `hay` at `i`.
pub open spec fn occurs_at(hay: Seq<u8>, needle: Seq<u8>, i: int) -> bool {
    0 <= i && i + needle.len() <= hay.len() && hay.subrange(i, i + needle.len()) == needle
}

/// The first position at or after `i` where `needle` occurs in `hay`.
pub open spec fn find_from(hay: Seq<u8>, needle: Seq<u8>, i: int) -> Option<int>
    decreases hay.len() + 1 - i,
{
    if i < 0 || i + needle.len() > hay.len() {
        None
    } else if occurs_at(hay, needle, i) {
        Some(i)
    } else {
        find_from(hay, needle, i + 1)
    }
}

pub proof fn lemma_find_from(hay: Seq<u8>, needle: Seq<u8>, i: int)
    requires
        0 <= i,
    ensures
        find_from(hay, needle, i) matches Some(p) ==> i <= p && occurs_at(hay, needle, p)
            && p + needle.len() <= hay.len(),
        find_from(hay, needle, i) matches Some(p) ==> forall|j: int|
            i <= j < p ==> !occurs_at(hay, needle, j),
        find_from(hay, needle, i) is None ==> forall|j: int|
            i <= j ==> !occurs_at(hay, needle, j),
    decreases hay.len() + 1 - i,
{
    if i < 0 || i + needle.len() > hay.len() {
    } else if occurs_at(hay, needle, i) {
    } else {
        lemma_find_from(hay, needle, i + 1);
    }
}

/// Whether `needle` occurs anywhere in `hay`.
pub open spec fn contains_seq(hay: Seq<u8>, needle: Seq<u8>) -> bool {
    find_from(hay, needle, 0) is Some
}

pub fn starts_with_exec(s: &[u8], p: &[u8]) -> (r: bool)
    ensures
        r == starts_with(s@, p@),
{
    if p.len() > s.len() {
        return false;
    }
    bytes_eq(subslice(s, 0, p.len()), p)
}

pub fn starts_with_str(s: &[u8], p: &str) -> (r: bool)
    ensures
        r == starts_with(s@, p.spec_bytes()),
{
    starts_with_exec(s, p.as_bytes())
}

pub fn ends_with_str(s: &[u8], p: &str) -> (r: bool)
    ensures
        r == ends_with(s@, p.spec_bytes()),
{
    let p = p.as_bytes();
    if p.len() > s.len() {
        return false;
    }
    bytes_eq(subslice(s, s.len() - p.len(), s.len()), p)
}

fn occurs_at_exec(hay: &[u8], needle: &[u8], i: usize) -> (r: bool)
    ensures
        r == occurs_at(hay@, needle@, i as int),
{
    if needle.len() > hay.len() || i > hay.len() - needle.len() {
        return false;
    }
    bytes_eq(subslice(hay, i, i + needle.len()), needle)
}

/// The first position at or after `from` where `needle` occurs in `hay`.
pub fn find_from_exec(hay: &[u8], needle: &[u8], from: usize) -> (r: Option<usize>)
    ensures
        match r {
            Some(i) => find_from(hay@, needle@, from as int) == Some(i as int),
            None => find_from(hay@, needle@, from as int) is None,
        },
{
    if needle.len() > hay.len() {
        return None;
    }
    let mut i = from;
    while i <= hay.len() - needle.len()
        invariant
            needle@.len() <= hay@.len(),
            from <= i,
            find_from(hay@, needle@, from as int) == find_from(hay@, needle@, i as int),
        decreases hay@.len() - i,
    {
        if occurs_at_exec(hay, needle, i) {
            return Some(i);
        }
        if i == hay.len() - needle.len() {
            assert(find_from(hay@, needle@, i + 1) is None);
            return None;
        }
        i = i + 1;
    }
    None
}

pub fn contains_exec(hay: &[u8], needle: &[u8]) -> (r: bool)
    ensures
        r == contains_seq(hay@, needle@),
{
    find_from_exec(hay, needle, 0).is_some()
}

pub fn contains_str(hay: &[u8], needle: &str) -> (r: bool)
    ensures
        r == contains_seq(hay@, needle.spec_bytes()),
{
    contains_exec(hay, needle.as_bytes())
}

/// Whether byte `b` occurs in `s`.
pub fn contains_byte(s: &[u8], b: u8) -> (r: bool)
    ensures
        r == s@.contains(b),
{
    let mut i: usize = 0;
    while i < s.len()
        invariant
            i <= s@.len(),
            forall|j: int| 0 <= j < i ==> s@[j] != b,
        decreases s@.len() - i,
    {
        if s[i] == b {
            assert(s@[i as int] == b);
            return true;
        }
        i = i + 1;
    }
    false
}

/// `s` without leading bytes equal to `b`.
pub open spec fn skip_leading(s: Seq<u8>, b: u8) -> Seq<u8>
    decreases s.len(),
{
    if s.len() > 0 && s[0] == b {
        skip_leading(s.drop_first(), b)
    } else {
        s
    }
}

pub fn skip_leading_exec(s: &[u8], b: u8) -> (r: &[u8])
    ensures
        r@ == skip_leading(s@, b),
{
    let mut i: usize = 0;
    assert(s@.subrange(0, s@.len() as int) =~= s@);
    while i < s.len() && s[i] == b
        invariant
            i <= s@.len(),
            skip_leading(s@, b) == skip_leading(s@.subrange(i as int, s@.len() as int), b),
        decreases s@.len() - i,
    {
        assert(s@.subrange(i as int, s@.len() as int).drop_first() =~= s@.subrange(i + 1, s@.len() as int));
        i = i + 1;
    }
    subslice(s, i, s.len())
}

/// Whether `b` is a space or a tab.
pub open spec fn is_blank(b: u8) -> bool {
    b == 32u8 || b == 9u8
}

/// `s` without leading spaces and tabs.
pub open spec fn ltrim_blank(s: Seq<u8>) -> Seq<u8>
    decreases s.len(),
{
    if s.len() > 0 && is_blank(s[0]) {
        ltrim_blank(s.drop_first())
    } else {
        s
    }
}

/// The position of the first byte that is not a space or tab.
pub open spec fn first_non_blank(s: Seq<u8>) -> Option<int> {
    if ltrim_blank(s).len() == 0 { None } else { Some(s.len() - ltrim_blank(s).len()) }
}

pub proof fn lemma_ltrim_suffix(s: Seq<u8>)
    ensures
        ltrim_blank(s).len() <= s.len(),
        ltrim_blank(s) == s.subrange(s.len() - ltrim_blank(s).len(), s.len() as int),
        forall|j: int| 0 <= j < s.len() - ltrim_blank(s).len() ==> is_blank(#[trigger] s[j]),
        ltrim_blank(s).len() > 0 ==> !is_blank(ltrim_blank(s)[0]),
    decreases s.len(),
{
    if s.len() > 0 && is_blank(s[0]) {
        lemma_ltrim_suffix(s.drop_first());
        assert forall|j: int| 0 <= j < s.len() - ltrim_blank(s).len() implies is_blank(#[trigger] s[j]) by {
            if j > 0 {
                assert(s[j] == s.drop_first()[j - 1]);
            }
        }
    } else {
        assert(s.subrange(0, s.len() as int) =~= s);
    }
}

/// `s` without leading spaces and tabs.
pub fn ltrim_blank_exec(s: &[u8]) -> (r: &[u8])
    ensures
        r@ == ltrim_blank(s@),
{
    let mut i: usize = 0;
    assert(s@.subrange(0, s@.len() as int) =~= s@);
    while i < s.len() && (s[i] == 32u8 || s[i] == 9u8)
        invariant
            i <= s@.len(),
            ltrim_blank(s@) == ltrim_blank(s@.subrange(i as int, s@.len() as int)),
        decreases s@.len() - i,
    {
        assert(s@.subrange(i as int, s@.len() as int).drop_first() =~= s@.subrange(i + 1, s@.len() as int));
        i = i + 1;
    }
    subslice(s, i, s.len())
}

/// The length of the UTF-8 encoding of a white-space character (Unicode
/// `White_Space`, which `char::is_whitespace` tests) that opens `s`, or 0.
/// Those characters are U+0009 to U+000D, U+0020, U+0085, U+00A0, U+1680,
/// U+2000 to U+200A, U+2028, U+2029, U+202F, U+205F and U+3000.
pub open spec fn ws_prefix_len(s: Seq<u8>) -> int {
    if s.len() >= 1 && ((9 <= s[0] <= 13) || s[0] == 32) {
        1
    } else if s.len() >= 2 && ws2(s[0], s[1]) {
        2
    } else if s.len() >= 3 && ws3(s[0], s[1], s[2]) {
        3
    } else {
        0
    }
}

/// The length of the UTF-8 encoding of a white-space character that closes
/// `s`, or 0.
pub open spec fn ws_suffix_len(s: Seq<u8>) -> int {
    let n = s.len() as int;
    if n >= 1 && ((9 <= s[n - 1] <= 13) || s[n - 1] == 32) {
        1
    } else if n >= 2 && ws2(s[n - 2], s[n - 1]) {
        2
    } else if n >= 3 && ws3(s[n - 3], s[n - 2], s[n - 1]) {
        3
    } else {
        0
    }
}

/// U+0085 and U+00A0 in UTF-8.
pub open spec fn ws2(a: u8, b: u8) -> bool {
    a == 0xC2u8 && (b == 0x85u8 || b == 0xA0u8)
}

/// U+1680, U+2000 to U+200A, U+2028, U+2029, U+202F, U+205F and U+3000 in
/// UTF-8.
pub open spec fn ws3(a: u8, b: u8, c: u8) -> bool {
    ||| (a == 0xE1u8 && b == 0x9Au8 && c == 0x80u8)
    ||| (a == 0xE2u8 && b == 0x80u8 && ((0x80u8 <= c <= 0x8Au8) || c == 0xA8u8 || c == 0xA9u8 || c == 0xAFu8))
    ||| (a == 0xE2u8 && b == 0x81u8 && c == 0x9Fu8)
    ||| (a == 0xE3u8 && b == 0x80u8 && c == 0x80u8)
}

/// What `str::trim_start` leaves of UTF-8 text: the text without leading
/// white-space characters.
pub open spec fn str_trim_start(s: Seq<u8>) -> Seq<u8>
    decreases s.len(),
{
    let k = ws_prefix_len(s);
    if k == 0 {
        s
    } else {
        str_trim_start(s.subrange(k, s.len() as int))
    }
}

/// What `str::trim_end` leaves of UTF-8 text: the text without trailing
/// white-space characters.
pub open spec fn str_trim_end(s: Seq<u8>) -> Seq<u8>
    decreases s.len(),
{
    let k = ws_suffix_len(s);
    if k == 0 {
        s
    } else {
        str_trim_end(s.subrange(0, s.len() - k))
    }
}

/// What `str::trim` leaves of UTF-8 text: the text without leading and
/// trailing white-space characters.
pub open spec fn str_trim(s: Seq<u8>) -> Seq<u8> {
    str_trim_end(str_trim_start(s))
}

/// `str::trim` on UTF-8 text given as bytes.  Claimed: the result is
/// `str_trim` of the text (white space as Unicode `White_Space` defines it,
/// which is what `str::trim` removes), and it is UTF-8 (a `str`).
#[verifier::external_body]
pub fn trim_text(s: &[u8]) -> (r: Vec<u8>)
    requires
        vstd::utf8::valid_utf8(s@),
    ensures
        r@ == str_trim(s@),
        vstd::utf8::valid_utf8(r@),
{
    std::str::from_utf8(s).unwrap_or("").trim().as_bytes().to_vec()
}

/// `str::trim_end` on UTF-8 text given as bytes.  Claimed: the result is
/// `str_trim_end` of the text, and it is UTF-8 (a `str`).
#[verifier::external_body]
pub fn trim_end_text(s: &[u8]) -> (r: Vec<u8>)
    requires
        vstd::utf8::valid_utf8(s@),
    ensures
        r@ == str_trim_end(s@),
        vstd::utf8::valid_utf8(r@),
{
    std::str::from_utf8(s).unwrap_or("").trim_end().as_bytes().to_vec()
}

/// The UTF-8 text of `src[a..b)`, if the range lies in `src` and the bytes
/// are UTF-8.
pub open spec fn text_slice(src: Seq<u8>, a: int, b: int) -> Option<Seq<u8>> {
    if 0 <= a <= b <= src.len() && vstd::utf8::valid_utf8(src.subrange(a, b)) {
        Some(src.subrange(a, b))
    } else {
        None
    }
}

pub fn text_slice_exec(src: &[u8], a: usize, b: usize) -> (r: Option<&[u8]>)
    ensures
        match r {
            Some(t) => text_slice(src@, a as int, b as int) == Some(t@),
            None => text_slice(src@, a as int, b as int) is None,
        },
{
    if a <= b && b <= src.len() {
        let t = subslice(src, a, b);
        if utf8_is_valid(t) {
            return Some(t);
        }
    }
    None
}

/// `str::trim_start` on UTF-8 text given as bytes.  Claimed: the result is
/// `str_trim_start` of the text, and it is UTF-8 (a `str`).
#[verifier::external_body]
pub fn trim_start_text(s: &[u8]) -> (r: Vec<u8>)
    requires
        vstd::utf8::valid_utf8(s@),
    ensures
        r@ == str_trim_start(s@),
        vstd::utf8::valid_utf8(r@),
{
    std::str::from_utf8(s).unwrap_or("").trim_start().as_bytes().to_vec()
}

/// The UTF-8 text of `src[a..b)`, or nothing when the range is not UTF-8
/// text inside `src`.
pub open spec fn text_or_empty(src: Seq<u8>, a: int, b: int) -> Seq<u8> {
    match text_slice(src, a, b) {
        Some(t) => t,
        None => Seq::empty(),
    }
}

pub fn text_or_empty_exec(src: &[u8], a: usize, b: usize) -> (r: &[u8])
    ensures
        r@ == text_or_empty(src@, a as int, b as int),
        vstd::utf8::valid_utf8(r@),
{
    match text_slice_exec(src, a, b) {
        Some(t) => t,
        None => {
            let e: &[u8] = &[];
            assert(e@ =~= Seq::<u8>::empty());
            e
        },
    }
}

/// The byte sequences held by a list of byte vectors.
pub open spec fn views(v: Seq<Vec<u8>>) -> Seq<Seq<u8>> {
    v.map_values(|e: Vec<u8>| e@)
}

} // verus!
