//! RSpec/SortMetadata: metadata symbols and keys of an example or group
//! that are not in alphabetical order.
use vstd::prelude::*;
use vstd::string::StringSliceAdditionalSpecFns;
use crate::ast::{call_args_exec, Node};
use crate::bytes::{eq_str, utf8_is_valid};
use crate::cop::util::{is_rspec_example, is_rspec_example_group, spec_constant_name, spec_is_rspec_example, spec_is_rspec_example_group, constant_name};
use crate::diagnostic::{diagnostic, offense, offenses, str_bytes, Diagnostic, Offense};
use crate::source::{spec_column_of, spec_line_of, SourceFile};

verus! {

/// The cop.
pub struct SortMetadata;

/// Byte-wise lexicographic order, as `String`s compare.
pub open spec fn lex_le(a: Seq<u8>, b: Seq<u8>) -> bool
    decreases a.len(),
{
    if a.len() == 0 {
        true
    } else if b.len() == 0 {
        false
    } else if a[0] != b[0] {
        a[0] < b[0]
    } else {
        lex_le(a.drop_first(), b.drop_first())
    }
}

/// The text of a symbol's name: empty unless it is UTF-8.
pub open spec fn symbol_text(s: Seq<u8>) -> Seq<u8> {
    if vstd::utf8::valid_utf8(s) { s } else { Seq::empty() }
}

/// The metadata symbols among the first `k` arguments: names and offsets.
pub open spec fn symbols(args: Seq<Node>, k: int) -> Seq<(Seq<u8>, int)>
    decreases k,
{
    if k <= 0 || k > args.len() {
        Seq::empty()
    } else {
        symbols(args, k - 1) + match args[k - 1] {
            Node::Symbol { unescaped, loc, .. } => seq![(symbol_text(unescaped@), loc.start as int)],
            _ => Seq::empty(),
        }
    }
}

/// The symbol keys of the first `k` pairs of a keyword hash.
pub open spec fn pair_keys(es: Seq<Node>, k: int) -> Seq<(Seq<u8>, int)>
    decreases k,
{
    if k <= 0 || k > es.len() {
        Seq::empty()
    } else {
        pair_keys(es, k - 1) + match es[k - 1] {
            Node::Assoc { key, loc, .. } => match *key {
                Node::Symbol { unescaped, .. } => seq![(symbol_text(unescaped@), loc.start as int)],
                _ => Seq::empty(),
            },
            _ => Seq::empty(),
        }
    }
}

/// The keyword-hash keys among the first `k` arguments.
pub open spec fn hash_keys(args: Seq<Node>, k: int) -> Seq<(Seq<u8>, int)>
    decreases k,
{
    if k <= 0 || k > args.len() {
        Seq::empty()
    } else {
        hash_keys(args, k - 1) + match args[k - 1] {
            Node::KeywordHash { elements, .. } => pair_keys(elements@, elements@.len() as int),
            _ => Seq::empty(),
        }
    }
}

pub open spec fn sorted(v: Seq<(Seq<u8>, int)>) -> bool {
    forall|i: int| 0 <= i < v.len() - 1 ==> lex_le(#[trigger] v[i].0, v[i + 1].0)
}

/// A call the cop looks at: an example or group with a literal block and
/// arguments, without receiver or on `RSpec`.
pub open spec fn is_metadata_call(n: Node) -> bool {
    &&& n matches Node::Call { name, block: Some(b), arguments: Some(_), .. }
    &&& (spec_is_rspec_example_group(n->Call_name@) || spec_is_rspec_example(n->Call_name@))
    &&& *n->Call_block->Some_0 is Block
    &&& (n->Call_receiver matches Some(r) ==> spec_constant_name(*r) == Some("RSpec".spec_bytes()))
}

pub open spec fn spec_check_node(src: Seq<u8>, n: Node) -> Seq<Offense> {
    if !is_metadata_call(n) {
        Seq::empty()
    } else {
        let args = n.call_args();
        let syms = symbols(args, args.len() as int);
        let keys = hash_keys(args, args.len() as int);
        if sorted(syms) && sorted(keys) {
            Seq::empty()
        } else {
            let at = if !sorted(syms) {
                if syms.len() > 0 { syms[0].1 } else { 0 }
            } else if keys.len() > 0 {
                keys[0].1
            } else {
                0
            };
            seq![offense(spec_line_of(src, at), spec_column_of(src, at), "Sort metadata alphabetically.".spec_bytes())]
        }
    }
}

fn lex_le_exec(a: &[u8], b: &[u8]) -> (r: bool)
    ensures
        r == lex_le(a@, b@),
{
    let mut i: usize = 0;
    assert(a@.subrange(0, a@.len() as int) =~= a@);
    assert(b@.subrange(0, b@.len() as int) =~= b@);
    while i < a.len()
        invariant
            i <= a@.len(),
            i <= b@.len(),
            lex_le(a@, b@) == lex_le(a@.subrange(i as int, a@.len() as int), b@.subrange(i as int, b@.len() as int)),
        decreases a@.len() - i,
    {
        if i >= b.len() {
            return false;
        }
        if a[i] != b[i] {
            return a[i] < b[i];
        }
        assert(a@.subrange(i as int, a@.len() as int).drop_first() =~= a@.subrange(i + 1, a@.len() as int));
        assert(b@.subrange(i as int, b@.len() as int).drop_first() =~= b@.subrange(i + 1, b@.len() as int));
        i = i + 1;
    }
    true
}

fn symbol_text_exec(s: &Vec<u8>) -> (r: &[u8])
    ensures
        r@ == symbol_text(s@),
{
    if utf8_is_valid(s.as_slice()) {
        s.as_slice()
    } else {
        let e: &[u8] = &[];
        assert(e@ =~= Seq::<u8>::empty());
        e
    }
}

/// The executable form of a `(name, offset)` entry.
pub struct Entry<'a> {
    pub name: &'a [u8],
    pub offset: usize,
}

pub open spec fn entry_views(v: Seq<Entry>) -> Seq<(Seq<u8>, int)> {
    v.map_values(|e: Entry| (e.name@, e.offset as int))
}

fn sorted_exec(v: &Vec<Entry>) -> (r: bool)
    ensures
        r == sorted(entry_views(v@)),
{
    let ghost w = entry_views(v@);
    if v.len() < 2 {
        return true;
    }
    let mut i: usize = 0;
    while i < v.len() - 1
        invariant
            v@.len() >= 2,
            i + 1 <= v@.len(),
            w == entry_views(v@),
            forall|j: int| 0 <= j < i ==> lex_le(#[trigger] w[j].0, w[j + 1].0),
        decreases v@.len() - i,
    {
        if !lex_le_exec(v[i].name, v[i + 1].name) {
            assert(!lex_le(w[i as int].0, w[i + 1].0));
            return false;
        }
        i = i + 1;
    }
    true
}

impl SortMetadata {
    pub fn name(&self) -> &'static str {
        "RSpec/SortMetadata"
    }

    /// The offense at `node`.
    pub fn check_node(&self, source: &SourceFile, node: &Node) -> (r: Vec<Diagnostic>)
        ensures
            offenses(r@) == spec_check_node(source.text(), *node),
    {
        let mut out: Vec<Diagnostic> = Vec::new();
        let (name, block, receiver) = match node {
            Node::Call { name, block: Some(b), arguments: Some(_), receiver, .. } => (name, b, receiver),
            _ => {
                assert(offenses(out@) =~= spec_check_node(source.text(), *node));
                return out;
            },
        };
        let is_block = match &**block {
            Node::Block { .. } => true,
            _ => false,
        };
        let recv_ok = match receiver {
            Some(r) => match constant_name(r) {
                Some(c) => eq_str(c.as_slice(), "RSpec"),
                None => false,
            },
            None => true,
        };
        if !(is_rspec_example_group(name.as_slice()) || is_rspec_example(name.as_slice())) || !is_block || !recv_ok {
            assert(offenses(out@) =~= spec_check_node(source.text(), *node));
            return out;
        }
        let args = call_args_exec(node);
        let mut syms: Vec<Entry> = Vec::new();
        let mut keys: Vec<Entry> = Vec::new();
        let mut k: usize = 0;
        assert(entry_views(syms@) =~= symbols(args@, 0));
        assert(entry_views(keys@) =~= hash_keys(args@, 0));
        while k < args.len()
            invariant
                k <= args@.len(),
                entry_views(syms@) == symbols(args@, k as int),
                entry_views(keys@) == hash_keys(args@, k as int),
            decreases args@.len() - k,
        {
            let ghost s0 = entry_views(syms@);
            let ghost k0 = entry_views(keys@);
            match &args[k] {
                Node::Symbol { unescaped, loc, .. } => {
                    syms.push(Entry { name: symbol_text_exec(unescaped), offset: loc.start });
                    assert(entry_views(syms@) =~= s0 + seq![entry_views(syms@).last()]);
                },
                Node::KeywordHash { elements, .. } => {
                    let mut j: usize = 0;
                    assert(entry_views(keys@) =~= k0 + pair_keys(elements@, 0));
                    while j < elements.len()
                        invariant
                            j <= elements@.len(),
                            entry_views(keys@) == k0 + pair_keys(elements@, j as int),
                        decreases elements@.len() - j,
                    {
                        let ghost kk = entry_views(keys@);
                        match &elements[j] {
                            Node::Assoc { key, loc, .. } => match &**key {
                                Node::Symbol { unescaped, .. } => {
                                    keys.push(Entry { name: symbol_text_exec(unescaped), offset: loc.start });
                                    assert(entry_views(keys@) =~= kk + seq![entry_views(keys@).last()]);
                                },
                                _ => {},
                            },
                            _ => {},
                        }
                        assert(entry_views(keys@) =~= k0 + pair_keys(elements@, j + 1));
                        j = j + 1;
                    }
                },
                _ => {},
            }
            assert(entry_views(syms@) =~= symbols(args@, k + 1));
            assert(entry_views(keys@) =~= hash_keys(args@, k + 1));
            k = k + 1;
        }
        let ss = sorted_exec(&syms);
        let ks = sorted_exec(&keys);
        if !ss || !ks {
            let at: usize = if !ss {
                if syms.len() > 0 { syms[0].offset } else { 0 }
            } else if keys.len() > 0 {
                keys[0].offset
            } else {
                0
            };
            let (line, column) = source.position(at);
            out.push(diagnostic(line, column, str_bytes("Sort metadata alphabetically.")));
        }
        assert(offenses(out@) =~= spec_check_node(source.text(), *node));
        out
    }
}

} // verus!
