//! Style/FileNull: the null device written as a string (`"/dev/null"`,
//! `"NUL:"`, and `"NUL"` in a file that also names `/dev/null`), where
//! `File::NULL` is portable.
use vstd::prelude::*;
use vstd::string::StringSliceAdditionalSpecFns;
use crate::ast::{children, children_of, flatten, lemma_children_decrease, preorder, Node};
use crate::bytes::{bytes_eq, eq_str, lower, to_ascii_lower, utf8_is_valid};
use crate::diagnostic::{diagnostic, edits, offense, offenses, push_bytes, push_str, str_bytes, Correction, Diagnostic, Edit, Offense};
use crate::source::{spec_column_of, spec_line_of, SourceFile};

verus! {

/// The cop.
pub struct FileNull;

/// A string literal whose text is `/dev/null` in any case.
pub open spec fn is_dev_null_string(n: Node) -> bool {
    n matches Node::Str { unescaped, .. } && vstd::utf8::valid_utf8(unescaped@) && lower(unescaped@)
        == "/dev/null".spec_bytes()
}

/// Whether the file names `/dev/null` anywhere.
pub open spec fn contains_dev_null(root: Node) -> bool {
    exists|i: int| 0 <= i < flatten(root).len() && is_dev_null_string(#[trigger] flatten(root)[i])
}

/// Whether a string's text names the null device.  (Lower-casing is taken
/// byte-wise: no non-ASCII character lower-cases to a letter of these
/// words.)
pub open spec fn names_null(text: Seq<u8>, dev_null_seen: bool) -> bool {
    let l = lower(text);
    l == "/dev/null".spec_bytes() || l == "nul:".spec_bytes() || (l == "nul".spec_bytes() && dev_null_seen)
}

/// The offense at a string literal that is not directly inside an array or
/// a pair.
pub open spec fn own_offense(src: Seq<u8>, n: Node, in_array_or_pair: bool, seen: bool) -> Seq<Offense> {
    match n {
        Node::Str { unescaped, loc, .. } => if !in_array_or_pair && vstd::utf8::valid_utf8(unescaped@)
            && unescaped@.len() > 0 && names_null(unescaped@, seen) {
            seq![offense(spec_line_of(src, loc.start as int), spec_column_of(src, loc.start as int),
                "Use `File::NULL` instead of `".spec_bytes() + unescaped@ + "`.".spec_bytes())]
        } else {
            Seq::empty()
        },
        _ => Seq::empty(),
    }
}

pub open spec fn own_edit(src: Seq<u8>, n: Node, in_array_or_pair: bool, seen: bool) -> Seq<Edit> {
    if own_offense(src, n, in_array_or_pair, seen).len() > 0 {
        seq![Edit { start: n.spec_loc().start as int, end: n.spec_loc().end as int, replacement: "File::NULL".spec_bytes() }]
    } else {
        Seq::empty()
    }
}

pub open spec fn tree_result(src: Seq<u8>, n: Node, in_ap: bool, seen: bool) -> (Seq<Offense>, Seq<Edit>)
    decreases n, children(n).len() + 1,
{
    let rest = children_result(src, n, children(n).len() as int, n is Array || n is Assoc, seen);
    (own_offense(src, n, in_ap, seen) + rest.0, own_edit(src, n, in_ap, seen) + rest.1)
}

pub open spec fn children_result(src: Seq<u8>, n: Node, k: int, in_ap: bool, seen: bool) -> (Seq<Offense>, Seq<Edit>)
    decreases n, k,
{
    if k <= 0 || k > children(n).len() {
        (Seq::empty(), Seq::empty())
    } else {
        proof {
            lemma_children_decrease(n);
        }
        let a = children_result(src, n, k - 1, in_ap, seen);
        let b = tree_result(src, children(n)[k - 1], in_ap, seen);
        (a.0 + b.0, a.1 + b.1)
    }
}

pub open spec fn spec_check_source(src: Seq<u8>, root: Node) -> (Seq<Offense>, Seq<Edit>) {
    tree_result(src, root, false, contains_dev_null(root))
}

fn contains_dev_null_exec(root: &Node) -> (r: bool)
    ensures
        r == contains_dev_null(*root),
{
    let nodes = preorder(root);
    let ghost ns = nodes@.map_values(|x: &Node| *x);
    let mut i: usize = 0;
    while i < nodes.len()
        invariant
            i <= nodes@.len(),
            ns == nodes@.map_values(|x: &Node| *x),
            ns == flatten(*root),
            forall|j: int| 0 <= j < i ==> !is_dev_null_string(#[trigger] ns[j]),
        decreases nodes@.len() - i,
    {
        let n = nodes[i];
        assert(ns[i as int] == *n);
        match n {
            Node::Str { unescaped, .. } => {
                if utf8_is_valid(unescaped.as_slice()) && eq_str(to_ascii_lower(unescaped.as_slice()).as_slice(), "/dev/null") {
                    assert(is_dev_null_string(ns[i as int]));
                    return true;
                }
            },
            _ => {},
        }
        i = i + 1;
    }
    false
}

impl FileNull {
    pub fn name(&self) -> &'static str {
        "Style/FileNull"
    }

    fn visit(&self, source: &SourceFile, n: &Node, in_ap: bool, seen: bool, out: &mut Vec<Diagnostic>, fixes: &mut Vec<Correction>)
        ensures
            ({
                let r = tree_result(source.text(), *n, in_ap, seen);
                offenses(final(out)@) == offenses(old(out)@) + r.0 && edits(final(fixes)@) == edits(old(fixes)@) + r.1
            }),
        decreases n, children(*n).len() + 1,
    {
        let ghost o = offenses(out@);
        let ghost e = edits(fixes@);
        let ghost src = source.text();
        match n {
            Node::Str { unescaped, loc, .. } => {
                if !in_ap && utf8_is_valid(unescaped.as_slice()) && unescaped.len() > 0 {
                    let l = to_ascii_lower(unescaped.as_slice());
                    if eq_str(l.as_slice(), "/dev/null") || eq_str(l.as_slice(), "nul:") || (eq_str(l.as_slice(), "nul") && seen) {
                        let (line, column) = source.position(loc.start);
                        let mut m: Vec<u8> = Vec::new();
                        push_str(&mut m, "Use `File::NULL` instead of `");
                        push_bytes(&mut m, unescaped.as_slice());
                        push_str(&mut m, "`.");
                        out.push(diagnostic(line, column, m));
                        fixes.push(Correction { start: loc.start, end: loc.end, replacement: str_bytes("File::NULL") });
                    }
                }
            },
            _ => {},
        }
        assert(offenses(out@) =~= o + own_offense(src, *n, in_ap, seen));
        assert(edits(fixes@) =~= e + own_edit(src, *n, in_ap, seen));
        let ghost o1 = offenses(out@);
        let ghost e1 = edits(fixes@);
        let inner = match n {
            Node::Array { .. } => true,
            Node::Assoc { .. } => true,
            _ => false,
        };
        let kids = children_of(n);
        let ghost cs = kids@.map_values(|x: &Node| *x);
        let mut i: usize = 0;
        while i < kids.len()
            invariant
                i <= kids@.len(),
                cs == kids@.map_values(|x: &Node| *x),
                cs == children(*n),
                src == source.text(),
                inner == (*n is Array || *n is Assoc),
                ({
                    let c = children_result(src, *n, i as int, inner, seen);
                    offenses(out@) == o1 + c.0 && edits(fixes@) == e1 + c.1
                }),
            decreases kids@.len() - i,
        {
            proof {
                lemma_children_decrease(*n);
            }
            assert(cs[i as int] == *kids[i as int]);
            self.visit(source, kids[i], inner, seen, out, fixes);
            i = i + 1;
        }
        assert(offenses(out@) =~= o + tree_result(src, *n, in_ap, seen).0);
        assert(edits(fixes@) =~= e + tree_result(src, *n, in_ap, seen).1);
    }

    /// The offenses and corrections in the tree rooted at `root`, in
    /// traversal order.
    pub fn check_source(&self, source: &SourceFile, root: &Node) -> (r: (Vec<Diagnostic>, Vec<Correction>))
        ensures
            (offenses(r.0@), edits(r.1@)) == spec_check_source(source.text(), *root),
    {
        let seen = contains_dev_null_exec(root);
        let mut out: Vec<Diagnostic> = Vec::new();
        let mut fixes: Vec<Correction> = Vec::new();
        assert(offenses(out@) =~= Seq::<Offense>::empty());
        assert(edits(fixes@) =~= Seq::<Edit>::empty());
        self.visit(source, root, false, seen, &mut out, &mut fixes);
        (out, fixes)
    }
}

/// Every offense has its correction, and no correction comes without one:
/// in any tree the offenses and the edits are equally many.
pub proof fn law_offenses_match_corrections(src: Seq<u8>, n: Node, in_ap: bool, seen: bool)
    ensures
        tree_result(src, n, in_ap, seen).0.len() == tree_result(src, n, in_ap, seen).1.len(),
    decreases n, children(n).len() + 1,
{
    lemma_children_match(src, n, children(n).len() as int, n is Array || n is Assoc, seen);
}

proof fn lemma_children_match(src: Seq<u8>, n: Node, k: int, in_ap: bool, seen: bool)
    ensures
        children_result(src, n, k, in_ap, seen).0.len() == children_result(src, n, k, in_ap, seen).1.len(),
    decreases n, k,
{
    if 0 < k <= children(n).len() {
        lemma_children_decrease(n);
        lemma_children_match(src, n, k - 1, in_ap, seen);
        law_offenses_match_corrections(src, children(n)[k - 1], in_ap, seen);
    }
}

} // verus!
