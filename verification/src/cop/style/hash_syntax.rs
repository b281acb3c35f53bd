//! Style/HashSyntax: the style of hash keys (`key: v` or `:key => v`) and of
//! shorthand values (`{x:}`).
use vstd::prelude::*;
use vstd::string::StringSliceAdditionalSpecFns;
use crate::ast::{NamedKind, Node};
use crate::bytes::{bytes_eq, eq_str, src_range, src_range_exec, utf8_is_valid};
use crate::diagnostic::{
    edits, offense, offenses, push_bytes, push_str, str_bytes, Correction, Diagnostic, Edit,
    Offense,
};
use crate::source::{spec_column_of, spec_line_of, Loc, SourceFile};

verus! {

/// The cop.
pub struct HashSyntax;

/// The `EnforcedStyle` option.
#[derive(Clone, Copy, PartialEq, Eq, Structural, Debug)]
pub enum HashStyle {
    Ruby19,
    Ruby19NoMixedKeys,
    HashRockets,
    NoMixedKeys,
    /// Any other configured value: no key style is enforced.
    Other,
}

/// The `EnforcedShorthandSyntax` option.
#[derive(Clone, Copy, PartialEq, Eq, Structural, Debug)]
pub enum ShorthandStyle {
    Either,
    Always,
    Never,
    Consistent,
    /// Any other configured value: no shorthand style is enforced.
    Other,
}

/// The options of the cop.
#[derive(Clone, Copy, PartialEq, Eq, Structural, Debug)]
pub struct HashSyntaxConfig {
    pub enforced_style: HashStyle,
    pub enforced_shorthand: ShorthandStyle,
    pub use_hash_rockets_with_symbol_values: bool,
    pub prefer_hash_rockets_for_non_alnum_ending_symbols: bool,
}

pub open spec fn is_alpha(b: u8) -> bool {
    (65 <= b <= 90) || (97 <= b <= 122)
}

pub open spec fn is_alnum(b: u8) -> bool {
    is_alpha(b) || (48 <= b <= 57)
}

/// Where the name part of a symbol ends: before a trailing `?` or `!`.
pub open spec fn name_end(name: Seq<u8>) -> int {
    if name.len() > 1 && (name.last() == 63u8 || name.last() == 33u8) {
        name.len() - 1
    } else {
        name.len() as int
    }
}

/// Whether a symbol can be written as `name:`: a letter or `_`, then letters,
/// digits and `_`, optionally ending in `?` or `!`.
pub open spec fn spec_is_convertible_symbol_key(name: Seq<u8>) -> bool {
    &&& name.len() > 0
    &&& (is_alpha(name[0]) || name[0] == 95u8)
    &&& forall|i: int| 1 <= i < name_end(name) ==> (is_alnum(#[trigger] name[i]) || name[i] == 95u8)
}

/// The source text of a location.
pub open spec fn loc_text(src: Seq<u8>, l: Loc) -> Seq<u8> {
    src_range(src, l.start as int, l.end as int)
}

/// Whether an element is a pair whose operator is `=>`.
pub open spec fn uses_rocket(src: Seq<u8>, e: Node) -> bool {
    e matches Node::Assoc { operator_loc: Some(op), .. } && loc_text(src, op) == "=>".spec_bytes()
}

/// Whether the element is a pair with a symbol key.
pub open spec fn has_symbol_key(e: Node) -> bool {
    e matches Node::Assoc { key, .. } && *key is Symbol
}

/// The symbol key's content.
pub open spec fn key_name(e: Node) -> Seq<u8> {
    match e {
        Node::Assoc { key, .. } => match *key {
            Node::Symbol { unescaped, .. } => unescaped@,
            _ => Seq::empty(),
        },
        _ => Seq::empty(),
    }
}

/// The start of a pair's key.
pub open spec fn key_start(e: Node) -> int {
    match e {
        Node::Assoc { key, .. } => key.spec_loc().start as int,
        _ => 0,
    }
}

/// Whether a pair's value is omitted (`{x:}`).
pub open spec fn is_shorthand(e: Node) -> bool {
    e matches Node::Assoc { value, .. } && *value is Implicit
}

/// Whether a pair with a symbol key could be written in shorthand: its value
/// is the local variable of the same name.
pub open spec fn could_be_shorthand(e: Node) -> bool {
    has_symbol_key(e) && !is_shorthand(e) && match e {
        Node::Assoc { value, .. } => match *value {
            Node::Named { kind: NamedKind::LocalVariableRead, name, .. } => name@ == key_name(e),
            _ => false,
        },
        _ => false,
    }
}

/// Whether a pair's key blocks the conversion to `key:` style.
pub open spec fn is_unconvertible(e: Node, prefer_nonalnum: bool) -> bool {
    e is Assoc && (!has_symbol_key(e) || !spec_is_convertible_symbol_key(key_name(e)) || (
    prefer_nonalnum && key_name(e).len() > 0 && !is_alnum(key_name(e).last()) && key_name(e).last()
        != 34u8 && key_name(e).last() != 39u8))
}

/// Whether a pair's value is a symbol.
pub open spec fn has_symbol_value(e: Node) -> bool {
    e matches Node::Assoc { value, .. } && *value is Symbol
}

pub open spec fn at_key(src: Seq<u8>, e: Node, m: Seq<u8>) -> Offense {
    offense(spec_line_of(src, key_start(e)), spec_column_of(src, key_start(e)), m)
}

/// The offenses for the first `k` elements under a per-element rule.
pub open spec fn per_element(src: Seq<u8>, els: Seq<Node>, k: int, rule: int) -> Seq<Offense>
    decreases k,
{
    if k <= 0 {
        Seq::empty()
    } else {
        let e = els[k - 1];
        let hit = if rule == 0 {
            could_be_shorthand(e)
        } else if rule == 1 {
            is_shorthand(e)
        } else if rule == 2 {
            has_symbol_key(e) && uses_rocket(src, e)
        } else {
            has_symbol_key(e) && !uses_rocket(src, e)
        };
        let m = if rule == 0 {
            "Omit the hash value.".spec_bytes()
        } else if rule == 1 {
            "Include the hash value.".spec_bytes()
        } else if rule == 2 {
            "Use the new Ruby 1.9 hash syntax.".spec_bytes()
        } else {
            "Use hash rockets syntax.".spec_bytes()
        };
        per_element(src, els, k - 1, rule) + if hit {
            seq![at_key(src, e, m)]
        } else {
            Seq::empty()
        }
    }
}

/// The correction of one element under a key-style rule: to `name:` (rule 2)
/// or to `:name =>` (rule 3).
pub open spec fn element_edit(src: Seq<u8>, e: Node, rule: int) -> Seq<Edit> {
    match e {
        Node::Assoc { operator_loc: Some(op), .. } => if has_symbol_key(e) && vstd::utf8::valid_utf8(
            key_name(e),
        ) && ((rule == 2 && uses_rocket(src, e)) || (rule == 3 && !uses_rocket(src, e))) {
            seq![Edit {
                start: key_start(e),
                end: op.end as int,
                replacement: if rule == 2 {
                    key_name(e) + ":".spec_bytes()
                } else {
                    ":".spec_bytes() + key_name(e) + " =>".spec_bytes()
                },
            }]
        } else {
            Seq::empty()
        },
        _ => Seq::empty(),
    }
}

/// The corrections for the first `k` elements.
pub open spec fn edits_for(src: Seq<u8>, els: Seq<Node>, k: int, rule: int) -> Seq<Edit>
    decreases k,
{
    if k <= 0 {
        Seq::empty()
    } else {
        edits_for(src, els, k - 1, rule) + element_edit(src, els[k - 1], rule)
    }
}

/// The elements of a hash or keyword-argument hash.
pub open spec fn hash_elements(n: Node) -> Option<Seq<Node>> {
    match n {
        Node::Hash { elements, .. } => Some(elements@),
        Node::KeywordHash { elements, .. } => Some(elements@),
        _ => None,
    }
}

/// The shorthand offenses.
pub open spec fn shorthand_offenses(src: Seq<u8>, els: Seq<Node>, style: ShorthandStyle) -> Seq<Offense> {
    match style {
        ShorthandStyle::Always => per_element(src, els, els.len() as int, 0),
        ShorthandStyle::Never => per_element(src, els, els.len() as int, 1),
        ShorthandStyle::Consistent => if (exists|i: int|
            0 <= i < els.len() && has_symbol_key(els[i]) && is_shorthand(els[i])) && (exists|i: int|
            0 <= i < els.len() && has_symbol_key(els[i]) && !is_shorthand(els[i])) {
            seq![
                offense(
                    spec_line_of(src, els[0].spec_loc().start as int),
                    spec_column_of(src, els[0].spec_loc().start as int),
                    "Don't mix explicit and shorthand hash values.".spec_bytes(),
                ),
            ]
        } else {
            Seq::empty()
        },
        _ => Seq::empty(),
    }
}

/// The offenses and corrections at `n`.
pub open spec fn spec_check_node(src: Seq<u8>, n: Node, cfg: HashSyntaxConfig) -> (Seq<Offense>, Seq<Edit>) {
    match hash_elements(n) {
        None => (Seq::empty(), Seq::empty()),
        Some(els) => {
            let sh = shorthand_offenses(src, els, cfg.enforced_shorthand);
            if cfg.enforced_shorthand != ShorthandStyle::Either && sh.len() > 0 {
                (sh, Seq::empty())
            } else {
                match cfg.enforced_style {
                    HashStyle::Ruby19 | HashStyle::Ruby19NoMixedKeys => if (
                    cfg.use_hash_rockets_with_symbol_values && exists|i: int|
                        0 <= i < els.len() && has_symbol_value(els[i])) || (exists|i: int|
                        0 <= i < els.len() && is_unconvertible(
                            els[i],
                            cfg.prefer_hash_rockets_for_non_alnum_ending_symbols,
                        )) {
                        (Seq::empty(), Seq::empty())
                    } else {
                        (
                            per_element(src, els, els.len() as int, 2),
                            edits_for(src, els, els.len() as int, 2),
                        )
                    },
                    HashStyle::HashRockets => (
                        per_element(src, els, els.len() as int, 3),
                        edits_for(src, els, els.len() as int, 3),
                    ),
                    HashStyle::NoMixedKeys => if (exists|i: int|
                        0 <= i < els.len() && els[i] is Assoc && uses_rocket(src, els[i])) && (
                    exists|i: int| 0 <= i < els.len() && els[i] is Assoc && !uses_rocket(src, els[i])) {
                        (
                            seq![
                                offense(
                                    spec_line_of(src, n.spec_loc().start as int),
                                    spec_column_of(src, n.spec_loc().start as int),
                                    "Don't mix styles in the same hash.".spec_bytes(),
                                ),
                            ],
                            Seq::empty(),
                        )
                    } else {
                        (Seq::empty(), Seq::empty())
                    },
                    HashStyle::Other => (Seq::empty(), Seq::empty()),
                }
            }
        },
    }
}

fn is_alpha_exec(b: u8) -> (r: bool)
    ensures
        r == is_alpha(b),
{
    (65 <= b && b <= 90) || (97 <= b && b <= 122)
}

fn is_alnum_exec(b: u8) -> (r: bool)
    ensures
        r == is_alnum(b),
{
    is_alpha_exec(b) || (48 <= b && b <= 57)
}

/// Whether a symbol can be written as `name:`.
pub fn is_convertible_symbol_key(name: &[u8]) -> (r: bool)
    ensures
        r == spec_is_convertible_symbol_key(name@),
{
    if name.len() == 0 {
        return false;
    }
    let first = name[0];
    if !is_alpha_exec(first) && first != 95u8 {
        return false;
    }
    let end = if name.len() > 1 && (name[name.len() - 1] == 63u8 || name[name.len() - 1] == 33u8) {
        name.len() - 1
    } else {
        name.len()
    };
    assert(end == name_end(name@));
    let mut i: usize = 1;
    while i < end
        invariant
            1 <= i,
            end <= name@.len(),
            end == name_end(name@),
            forall|j: int| 1 <= j < i ==> (is_alnum(#[trigger] name@[j]) || name@[j] == 95u8),
        decreases end - i,
    {
        if !(is_alnum_exec(name[i]) || name[i] == 95u8) {
            assert(!(is_alnum(name@[i as int]) || name@[i as int] == 95u8));
            return false;
        }
        i = i + 1;
    }
    true
}

fn loc_text_exec<'a>(src: &'a [u8], l: Loc) -> (r: &'a [u8])
    ensures
        r@ == loc_text(src@, l),
{
    src_range_exec(src, l.start, l.end)
}

fn uses_rocket_exec(src: &[u8], e: &Node) -> (r: bool)
    ensures
        r == uses_rocket(src@, *e),
{
    match e {
        Node::Assoc { operator_loc: Some(op), .. } => eq_str(loc_text_exec(src, *op), "=>"),
        _ => false,
    }
}

fn key_parts(e: &Node) -> (r: Option<(&Vec<u8>, usize)>)
    ensures
        match r {
            Some((name, start)) => has_symbol_key(*e) && name@ == key_name(*e) && start == key_start(*e),
            None => !has_symbol_key(*e),
        },
{
    match e {
        Node::Assoc { key, .. } => match &**key {
            Node::Symbol { unescaped, .. } => Some((unescaped, key.loc().start)),
            _ => None,
        },
        _ => None,
    }
}

fn is_shorthand_exec(e: &Node) -> (r: bool)
    ensures
        r == is_shorthand(*e),
{
    match e {
        Node::Assoc { value, .. } => match &**value {
            Node::Implicit { .. } => true,
            _ => false,
        },
        _ => false,
    }
}

fn element_hit(src: &[u8], e: &Node, rule: usize) -> (r: bool)
    requires
        rule <= 3,
    ensures
        r == (if rule == 0 {
            could_be_shorthand(*e)
        } else if rule == 1 {
            is_shorthand(*e)
        } else if rule == 2 {
            has_symbol_key(*e) && uses_rocket(src@, *e)
        } else {
            has_symbol_key(*e) && !uses_rocket(src@, *e)
        }),
{
    if rule == 0 {
        match key_parts(e) {
            Some((name, _)) => !is_shorthand_exec(e) && match e {
                Node::Assoc { value, .. } => match &**value {
                    Node::Named { kind: NamedKind::LocalVariableRead, name: v, .. } => bytes_eq(
                        v.as_slice(),
                        name.as_slice(),
                    ),
                    _ => false,
                },
                _ => false,
            },
            None => false,
        }
    } else if rule == 1 {
        is_shorthand_exec(e)
    } else if rule == 2 {
        key_parts(e).is_some() && uses_rocket_exec(src, e)
    } else {
        key_parts(e).is_some() && !uses_rocket_exec(src, e)
    }
}

fn rule_message(rule: usize) -> (r: Vec<u8>)
    requires
        rule <= 3,
    ensures
        r@ == (if rule == 0 {
            "Omit the hash value.".spec_bytes()
        } else if rule == 1 {
            "Include the hash value.".spec_bytes()
        } else if rule == 2 {
            "Use the new Ruby 1.9 hash syntax.".spec_bytes()
        } else {
            "Use hash rockets syntax.".spec_bytes()
        }),
{
    if rule == 0 {
        str_bytes("Omit the hash value.")
    } else if rule == 1 {
        str_bytes("Include the hash value.")
    } else if rule == 2 {
        str_bytes("Use the new Ruby 1.9 hash syntax.")
    } else {
        str_bytes("Use hash rockets syntax.")
    }
}

fn key_start_exec(e: &Node) -> (r: usize)
    ensures
        r == key_start(*e),
{
    match e {
        Node::Assoc { key, .. } => key.loc().start,
        _ => 0,
    }
}

fn per_element_exec(source: &SourceFile, els: &Vec<Node>, rule: usize) -> (r: Vec<Diagnostic>)
    requires
        rule <= 3,
    ensures
        offenses(r@) == per_element(source.text(), els@, els@.len() as int, rule as int),
{
    let src = source.as_bytes();
    let mut out: Vec<Diagnostic> = Vec::new();
    let mut k: usize = 0;
    while k < els.len()
        invariant
            k <= els@.len(),
            rule <= 3,
            src@ == source.text(),
            offenses(out@) == per_element(source.text(), els@, k as int, rule as int),
        decreases els@.len() - k,
    {
        let e = &els[k];
        if element_hit(src, e, rule) {
            let (line, column) = source.position(key_start_exec(e));
            out.push(crate::diagnostic::diagnostic(line, column, rule_message(rule)));
        }
        assert(offenses(out@) =~= per_element(source.text(), els@, k + 1, rule as int));
        k = k + 1;
    }
    out
}

fn element_edit_exec(src: &[u8], e: &Node, rule: usize, fixes: &mut Vec<Correction>)
    requires
        rule == 2 || rule == 3,
    ensures
        edits(final(fixes)@) == edits(old(fixes)@) + element_edit(src@, *e, rule as int),
{
    let ghost before = edits(fixes@);
    match e {
        Node::Assoc { operator_loc: Some(op), .. } => match key_parts(e) {
            Some((name, start)) => {
                let rocket = uses_rocket_exec(src, e);
                if utf8_is_valid(name.as_slice()) && ((rule == 2 && rocket) || (rule == 3 && !rocket)) {
                    let mut rep: Vec<u8> = Vec::new();
                    if rule == 2 {
                        push_bytes(&mut rep, name.as_slice());
                        push_str(&mut rep, ":");
                    } else {
                        push_str(&mut rep, ":");
                        push_bytes(&mut rep, name.as_slice());
                        push_str(&mut rep, " =>");
                    }
                    fixes.push(Correction { start, end: op.end, replacement: rep });
                }
            },
            None => {},
        },
        _ => {},
    }
    assert(edits(fixes@) =~= before + element_edit(src@, *e, rule as int));
}

fn edits_for_exec(src: &[u8], els: &Vec<Node>, rule: usize) -> (r: Vec<Correction>)
    requires
        rule == 2 || rule == 3,
    ensures
        edits(r@) == edits_for(src@, els@, els@.len() as int, rule as int),
{
    let mut fixes: Vec<Correction> = Vec::new();
    let mut k: usize = 0;
    assert(edits(fixes@) =~= Seq::<Edit>::empty());
    while k < els.len()
        invariant
            k <= els@.len(),
            rule == 2 || rule == 3,
            edits(fixes@) == edits_for(src@, els@, k as int, rule as int),
        decreases els@.len() - k,
    {
        element_edit_exec(src, &els[k], rule, &mut fixes);
        k = k + 1;
    }
    fixes
}

/// Whether some element satisfies rule `q`: 0 shorthand pair with symbol key,
/// 1 explicit pair with symbol key, 2 symbol value, 3 unconvertible key,
/// 4 pair with `=>`, 5 pair without `=>`.
fn any_element(src: &[u8], els: &Vec<Node>, q: usize, prefer: bool) -> (r: bool)
    requires
        q <= 5,
    ensures
        r == exists|i: int| 0 <= i < els@.len() && element_query(src@, els@[i], q as int, prefer),
{
    let mut k: usize = 0;
    while k < els.len()
        invariant
            k <= els@.len(),
            q <= 5,
            forall|j: int| 0 <= j < k ==> !element_query(src@, #[trigger] els@[j], q as int, prefer),
        decreases els@.len() - k,
    {
        let e = &els[k];
        let hit = if q == 0 {
            key_parts(e).is_some() && is_shorthand_exec(e)
        } else if q == 1 {
            key_parts(e).is_some() && !is_shorthand_exec(e)
        } else if q == 2 {
            match e {
                Node::Assoc { value, .. } => match &**value {
                    Node::Symbol { .. } => true,
                    _ => false,
                },
                _ => false,
            }
        } else if q == 3 {
            match e {
                Node::Assoc { .. } => match key_parts(e) {
                    None => true,
                    Some((name, _)) => {
                        !is_convertible_symbol_key(name.as_slice()) || (prefer && name.len() > 0 && {
                            let last = name[name.len() - 1];
                            !is_alnum_exec(last) && last != 34u8 && last != 39u8
                        })
                    },
                },
                _ => false,
            }
        } else if q == 4 {
            match e {
                Node::Assoc { .. } => uses_rocket_exec(src, e),
                _ => false,
            }
        } else {
            match e {
                Node::Assoc { .. } => !uses_rocket_exec(src, e),
                _ => false,
            }
        };
        if hit {
            assert(element_query(src@, els@[k as int], q as int, prefer));
            return true;
        }
        k = k + 1;
    }
    false
}

/// The element predicates used by the cop (see `any_element`).
pub open spec fn element_query(src: Seq<u8>, e: Node, q: int, prefer: bool) -> bool {
    if q == 0 {
        has_symbol_key(e) && is_shorthand(e)
    } else if q == 1 {
        has_symbol_key(e) && !is_shorthand(e)
    } else if q == 2 {
        has_symbol_value(e)
    } else if q == 3 {
        is_unconvertible(e, prefer)
    } else if q == 4 {
        e is Assoc && uses_rocket(src, e)
    } else {
        e is Assoc && !uses_rocket(src, e)
    }
}

impl HashSyntax {
    pub fn name(&self) -> &'static str {
        "Style/HashSyntax"
    }

    /// The offenses and corrections at `node`, a hash or keyword hash.
    #[verifier::rlimit(50)]
    pub fn check_node(&self, source: &SourceFile, node: &Node, cfg: HashSyntaxConfig) -> (r: (Vec<Diagnostic>, Vec<Correction>))
        ensures
            (offenses(r.0@), edits(r.1@)) == spec_check_node(source.text(), *node, cfg),
    {
        let src = source.as_bytes();
        let els = match node {
            Node::Hash { elements, .. } => elements,
            Node::KeywordHash { elements, .. } => elements,
            _ => {
                return (Vec::new(), Vec::new());
            },
        };
        let ghost e = els@;
        assert(hash_elements(*node) == Some(e));
        let mut fixes: Vec<Correction> = Vec::new();
        assert(edits(fixes@) =~= Seq::<Edit>::empty());
        if cfg.enforced_shorthand != ShorthandStyle::Either {
            let sh = match cfg.enforced_shorthand {
                ShorthandStyle::Always => per_element_exec(source, els, 0),
                ShorthandStyle::Never => per_element_exec(source, els, 1),
                ShorthandStyle::Consistent => {
                    let mut v: Vec<Diagnostic> = Vec::new();
                    if any_element(src, els, 0, false) && any_element(src, els, 1, false) {
                        let (line, column) = source.position(els[0].loc().start);
                        v.push(crate::diagnostic::diagnostic(line, column, str_bytes("Don't mix explicit and shorthand hash values.")));
                    }
                    assert(offenses(v@) =~= shorthand_offenses(source.text(), e, cfg.enforced_shorthand));
                    v
                },
                _ => {
                    let v: Vec<Diagnostic> = Vec::new();
                    assert(offenses(v@) =~= shorthand_offenses(source.text(), e, cfg.enforced_shorthand));
                    v
                },
            };
            assert(offenses(sh@) == shorthand_offenses(source.text(), e, cfg.enforced_shorthand));
            if sh.len() > 0 {
                return (sh, fixes);
            }
        }
        match cfg.enforced_style {
            HashStyle::Ruby19 | HashStyle::Ruby19NoMixedKeys => {
                if (cfg.use_hash_rockets_with_symbol_values && any_element(src, els, 2, false))
                    || any_element(src, els, 3, cfg.prefer_hash_rockets_for_non_alnum_ending_symbols) {
                    let v: Vec<Diagnostic> = Vec::new();
                    assert(offenses(v@) =~= Seq::<Offense>::empty());
                    return (v, fixes);
                }
                (per_element_exec(source, els, 2), edits_for_exec(src, els, 2))
            },
            HashStyle::HashRockets => (per_element_exec(source, els, 3), edits_for_exec(src, els, 3)),
            HashStyle::NoMixedKeys => {
                let mut v: Vec<Diagnostic> = Vec::new();
                if any_element(src, els, 4, false) && any_element(src, els, 5, false) {
                    let (line, column) = source.position(node.loc().start);
                    v.push(crate::diagnostic::diagnostic(line, column, str_bytes("Don't mix styles in the same hash.")));
                }
                assert(offenses(v@) =~= spec_check_node(source.text(), *node, cfg).0);
                (v, fixes)
            },
            HashStyle::Other => {
                let v: Vec<Diagnostic> = Vec::new();
                assert(offenses(v@) =~= Seq::<Offense>::empty());
                (v, fixes)
            },
        }
    }
}

/// A name byte: an ASCII letter, digit or `_`.
pub open spec fn is_name_byte(b: u8) -> bool {
    (65u8 <= b <= 90u8) || (97u8 <= b <= 122u8) || (48u8 <= b <= 57u8) || b == 95u8
}

/// A symbol made of a letter or `_`, then letters, digits and `_`, with at
/// most a final `?` or `!`, can be written as `name:`.
pub proof fn law_identifier_symbols_are_convertible(name: Seq<u8>)
    requires
        name.len() > 0,
        (65u8 <= name[0] <= 90u8) || (97u8 <= name[0] <= 122u8) || name[0] == 95u8,
        forall|i: int| 1 <= i < name.len() - 1 ==> is_name_byte(#[trigger] name[i]),
        name.len() > 1 ==> (is_name_byte(name[name.len() - 1]) || name[name.len() - 1] == 63u8 || name[name.len()
            - 1] == 33u8),
    ensures
        spec_is_convertible_symbol_key(name),
{
    assert forall|i: int| 1 <= i < name_end(name) implies (is_alnum(#[trigger] name[i]) || name[i] == 95u8) by {
        if i < name.len() - 1 {
            assert(is_name_byte(name[i]));
        }
    }
}

/// In the `ruby19` style (shorthand `either`, both other options off), a
/// hash with one pair `:name => value`, whose symbol key is an identifier
/// (as above) in UTF-8, is reported at the key and corrected to `name:`.
pub proof fn law_rocket_pair_is_converted(src: Seq<u8>, n: Node, e: Node, cfg: HashSyntaxConfig)
    requires
        cfg.enforced_style == HashStyle::Ruby19,
        cfg.enforced_shorthand == ShorthandStyle::Either,
        !cfg.use_hash_rockets_with_symbol_values,
        !cfg.prefer_hash_rockets_for_non_alnum_ending_symbols,
        hash_elements(n) == Some(seq![e]),
        e matches Node::Assoc { key, operator_loc: Some(op), .. } && (*key matches Node::Symbol { unescaped, .. } && {
            let name = unescaped@;
            &&& name.len() > 0
            &&& (65u8 <= name[0] <= 90u8) || (97u8 <= name[0] <= 122u8) || name[0] == 95u8
            &&& forall|i: int| 1 <= i < name.len() - 1 ==> is_name_byte(#[trigger] name[i])
            &&& name.len() > 1 ==> (is_name_byte(name[name.len() - 1]) || name[name.len() - 1] == 63u8
                || name[name.len() - 1] == 33u8)
            &&& vstd::utf8::valid_utf8(name)
        }) && src_range(src, op.start as int, op.end as int) == "=>".spec_bytes(),
    ensures
        ({
            let key = e->Assoc_key;
            let name = key->Symbol_unescaped@;
            let at = key.spec_loc().start as int;
            spec_check_node(src, n, cfg) == (
                seq![offense(spec_line_of(src, at), spec_column_of(src, at), "Use the new Ruby 1.9 hash syntax.".spec_bytes())],
                seq![Edit { start: at, end: e->Assoc_operator_loc->0.end as int, replacement: name + ":".spec_bytes() }],
            )
        }),
{
    let els = seq![e];
    law_identifier_symbols_are_convertible(key_name(e));
    assert(!is_unconvertible(e, false));
    assert(!(exists|i: int| 0 <= i < els.len() && is_unconvertible(els[i], false)));
    assert(uses_rocket(src, e));
    assert(per_element(src, els, 0, 2) =~= Seq::<Offense>::empty());
    assert(edits_for(src, els, 0, 2) =~= Seq::<Edit>::empty());
    assert(els[0] == e);
}

} // verus!
