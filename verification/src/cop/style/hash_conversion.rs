//! Style/HashConversion: `Hash[...]`, which a hash literal or `to_h` says
//! more plainly.  A `Hash[...]` inside another is not reported.
use vstd::prelude::*;
use vstd::string::StringSliceAdditionalSpecFns;
use crate::ast::{call_args_exec, children, children_of, is_other, is_other_exec, lemma_children_decrease, NamedKind, Node};
use crate::bytes::{contains_byte, eq_str, text_slice, text_slice_exec};
use crate::diagnostic::{
    diagnostic, edits, offense, offenses, push_bytes, push_str, str_bytes, Correction, Diagnostic, Edit, Offense,
};
use crate::source::{spec_column_of, spec_line_of, SourceFile};

verus! {

/// The cop.
pub struct HashConversion;

/// `Hash[...]` or `::Hash[...]`.
pub open spec fn is_hash_bracket_call(n: Node) -> bool {
    n matches Node::Call { name, receiver: Some(r), .. } && name@ == "[]".spec_bytes() && match *r {
        Node::Named { kind: NamedKind::ConstantRead, name: c, .. } => c@ == "Hash".spec_bytes(),
        Node::ConstantPath { parent: None, name: c, .. } => c@ == "Hash".spec_bytes(),
        _ => false,
    }
}

/// The source text of a node, if it is UTF-8 text inside the file.
pub open spec fn node_text(src: Seq<u8>, n: Node) -> Option<Seq<u8>> {
    text_slice(src, n.spec_loc().start as int, n.spec_loc().end as int)
}

/// `x.to_h`, with `x` in parentheses when it spans lines or is a call with
/// arguments or a block.
pub open spec fn to_h_replacement(src: Seq<u8>, a: Node) -> Option<Seq<u8>> {
    match node_text(src, a) {
        Some(t) => {
            let parens = t.contains(10u8) || (a matches Node::Call { arguments, block, .. } && (arguments is Some || block is Some));
            Some(if parens { "(".spec_bytes() + t + ").to_h".spec_bytes() } else { t + ".to_h".spec_bytes() })
        },
        None => None,
    }
}

/// `k => v` for the pair starting at argument `2 * i`.
pub open spec fn pair_text(src: Seq<u8>, args: Seq<Node>, i: int) -> Seq<u8> {
    node_text(src, args[2 * i])->0 + " => ".spec_bytes() + node_text(src, args[2 * i + 1])->0
}

/// The first `m` pairs, joined by `, `.
pub open spec fn pairs_text(src: Seq<u8>, args: Seq<Node>, m: int) -> Seq<u8>
    decreases m,
{
    if m <= 0 {
        Seq::empty()
    } else if m == 1 {
        pair_text(src, args, 0)
    } else {
        pairs_text(src, args, m - 1) + ", ".spec_bytes() + pair_text(src, args, m - 1)
    }
}

pub open spec fn all_text(src: Seq<u8>, args: Seq<Node>) -> bool {
    forall|i: int| 0 <= i < args.len() ==> (#[trigger] node_text(src, args[i])) is Some
}

/// The message and replacement for a reported `Hash[...]` call.
pub open spec fn verdict(src: Seq<u8>, args: Seq<Node>) -> (Seq<u8>, Option<Seq<u8>>) {
    if args.len() == 1 {
        if args[0] is KeywordHash {
            (
                "Prefer literal hash to `Hash[key: value, ...]`.".spec_bytes(),
                match node_text(src, args[0]) {
                    Some(t) => Some("{".spec_bytes() + t + "}".spec_bytes()),
                    None => None,
                },
            )
        } else {
            ("Prefer `ary.to_h` to `Hash[ary]`.".spec_bytes(), to_h_replacement(src, args[0]))
        }
    } else {
        (
            "Prefer literal hash to `Hash[arg1, arg2, ...]`.".spec_bytes(),
            if args.len() % 2 == 0 && all_text(src, args) {
                Some("{".spec_bytes() + pairs_text(src, args, (args.len() / 2) as int) + "}".spec_bytes())
            } else {
                None
            },
        )
    }
}

pub open spec fn has_splat(args: Seq<Node>) -> bool {
    exists|i: int| 0 <= i < args.len() && is_other(#[trigger] args[i], "SplatNode".spec_bytes())
}

/// The offense and correction of an outermost `Hash[...]` call (none with a
/// splat argument when `AllowSplatArgument` is set).
pub open spec fn own_result(src: Seq<u8>, n: Node, allow_splat: bool, inside: bool) -> (Seq<Offense>, Seq<Edit>) {
    if is_hash_bracket_call(n) && !inside && !(allow_splat && has_splat(n.call_args())) {
        let (m, rep) = verdict(src, n.call_args());
        let l = n.spec_loc();
        (
            seq![offense(spec_line_of(src, l.start as int), spec_column_of(src, l.start as int), m)],
            match rep {
                Some(r) => seq![Edit { start: l.start as int, end: l.end as int, replacement: r }],
                None => Seq::empty(),
            },
        )
    } else {
        (Seq::empty(), Seq::empty())
    }
}

pub open spec fn tree_result(src: Seq<u8>, n: Node, allow_splat: bool, inside: bool) -> (Seq<Offense>, Seq<Edit>)
    decreases n, children(n).len() + 1,
{
    let own = own_result(src, n, allow_splat, inside);
    let rest = children_result(src, n, children(n).len() as int, allow_splat, inside || is_hash_bracket_call(n));
    (own.0 + rest.0, own.1 + rest.1)
}

pub open spec fn children_result(src: Seq<u8>, n: Node, k: int, allow_splat: bool, inside: bool) -> (Seq<Offense>, Seq<Edit>)
    decreases n, k,
{
    if k <= 0 || k > children(n).len() {
        (Seq::empty(), Seq::empty())
    } else {
        proof {
            lemma_children_decrease(n);
        }
        let a = children_result(src, n, k - 1, allow_splat, inside);
        let b = tree_result(src, children(n)[k - 1], allow_splat, inside);
        (a.0 + b.0, a.1 + b.1)
    }
}

pub open spec fn spec_check_source(src: Seq<u8>, root: Node, allow_splat: bool) -> (Seq<Offense>, Seq<Edit>) {
    tree_result(src, root, allow_splat, false)
}

fn is_hash_bracket_call_exec(n: &Node) -> (r: bool)
    ensures
        r == is_hash_bracket_call(*n),
{
    match n {
        Node::Call { name, receiver: Some(r), .. } => eq_str(name.as_slice(), "[]") && match &**r {
            Node::Named { kind: NamedKind::ConstantRead, name: c, .. } => eq_str(c.as_slice(), "Hash"),
            Node::ConstantPath { parent: None, name: c, .. } => eq_str(c.as_slice(), "Hash"),
            _ => false,
        },
        _ => false,
    }
}

fn node_text_exec<'a>(src: &'a [u8], n: &Node) -> (r: Option<&'a [u8]>)
    ensures
        match r {
            Some(t) => node_text(src@, *n) == Some(t@),
            None => node_text(src@, *n) is None,
        },
{
    let l = n.loc();
    text_slice_exec(src, l.start, l.end)
}

fn verdict_exec(src: &[u8], args: &[Node]) -> (r: (Vec<u8>, Option<Vec<u8>>))
    ensures
        r.0@ == verdict(src@, args@).0,
        match r.1 {
            Some(x) => verdict(src@, args@).1 == Some(x@),
            None => verdict(src@, args@).1 is None,
        },
{
    if args.len() == 1 {
        match &args[0] {
            Node::KeywordHash { .. } => {
                let rep = match node_text_exec(src, &args[0]) {
                    Some(t) => {
                        let mut v: Vec<u8> = Vec::new();
                        push_str(&mut v, "{");
                        push_bytes(&mut v, t);
                        push_str(&mut v, "}");
                        Some(v)
                    },
                    None => None,
                };
                (str_bytes("Prefer literal hash to `Hash[key: value, ...]`."), rep)
            },
            _ => {
                let rep = match node_text_exec(src, &args[0]) {
                    Some(t) => {
                        let parens = contains_byte(t, 10u8) || match &args[0] {
                            Node::Call { arguments, block, .. } => arguments.is_some() || block.is_some(),
                            _ => false,
                        };
                        let mut v: Vec<u8> = Vec::new();
                        if parens {
                            push_str(&mut v, "(");
                            push_bytes(&mut v, t);
                            push_str(&mut v, ").to_h");
                        } else {
                            push_bytes(&mut v, t);
                            push_str(&mut v, ".to_h");
                        }
                        Some(v)
                    },
                    None => None,
                };
                (str_bytes("Prefer `ary.to_h` to `Hash[ary]`."), rep)
            },
        }
    } else {
        let m = str_bytes("Prefer literal hash to `Hash[arg1, arg2, ...]`.");
        if args.len() % 2 != 0 {
            return (m, None);
        }
        // every argument must be UTF-8 text
        let mut i: usize = 0;
        while i < args.len()
            invariant
                i <= args@.len(),
                args@.len() != 1,
                args@.len() % 2 == 0,
                m@ == "Prefer literal hash to `Hash[arg1, arg2, ...]`.".spec_bytes(),
                forall|j: int| 0 <= j < i ==> (#[trigger] node_text(src@, args@[j])) is Some,
            decreases args@.len() - i,
        {
            if node_text_exec(src, &args[i]).is_none() {
                assert(!all_text(src@, args@));
                return (m, None);
            }
            i = i + 1;
        }
        assert(all_text(src@, args@));
        let half = args.len() / 2;
        assert(half * 2 == args@.len());
        let mut v: Vec<u8> = Vec::new();
        push_str(&mut v, "{");
        let ghost head = v@;
        let mut k: usize = 0;
        while k < half
            invariant
                k <= half,
                half == args@.len() / 2,
                half * 2 == args@.len(),
                args@.len() <= usize::MAX,
                args@.len() % 2 == 0,
                all_text(src@, args@),
                head == "{".spec_bytes(),
                args@.len() != 1,
                m@ == "Prefer literal hash to `Hash[arg1, arg2, ...]`.".spec_bytes(),
                v@ == head + pairs_text(src@, args@, k as int),
            decreases half - k,
        {
            if k > 0 {
                push_str(&mut v, ", ");
            }
            assert(node_text(src@, args@[2 * k as int]) is Some);
            assert(node_text(src@, args@[2 * k + 1]) is Some);
            assert(2 * k + 1 < args@.len()) by (nonlinear_arith)
                requires
                    k < half,
                    half * 2 == args@.len(),
            ;
            let key = node_text_exec(src, &args[2 * k]);
            let value = node_text_exec(src, &args[2 * k + 1]);
            match (key, value) {
                (Some(kt), Some(vt)) => {
                    push_bytes(&mut v, kt);
                    push_str(&mut v, " => ");
                    push_bytes(&mut v, vt);
                },
                _ => {},
            }
            assert(v@ =~= head + pairs_text(src@, args@, k + 1));
            k = k + 1;
        }
        push_str(&mut v, "}");
        (m, Some(v))
    }
}

impl HashConversion {
    pub fn name(&self) -> &'static str {
        "Style/HashConversion"
    }

    fn visit(&self, source: &SourceFile, n: &Node, allow_splat: bool, inside: bool, out: &mut Vec<Diagnostic>, fixes: &mut Vec<Correction>)
        ensures
            ({
                let r = tree_result(source.text(), *n, allow_splat, inside);
                offenses(final(out)@) == offenses(old(out)@) + r.0 && edits(final(fixes)@) == edits(old(fixes)@) + r.1
            }),
        decreases n, children(*n).len() + 1,
    {
        let ghost o = offenses(out@);
        let ghost e = edits(fixes@);
        let ghost src = source.text();
        let is_hash = is_hash_bracket_call_exec(n);
        if is_hash && !inside {
            let args = call_args_exec(n);
            let mut splat = false;
            if allow_splat {
                let mut i: usize = 0;
                while i < args.len()
                    invariant
                        i <= args@.len(),
                        splat == exists|j: int| 0 <= j < i && is_other(#[trigger] args@[j], "SplatNode".spec_bytes()),
                    decreases args@.len() - i,
                {
                    if is_other_exec(&args[i], "SplatNode") {
                        splat = true;
                    }
                    i = i + 1;
                }
            }
            if !splat {
                let l = n.loc();
                let (line, column) = source.position(l.start);
                let (m, rep) = verdict_exec(source.as_bytes(), args);
                out.push(diagnostic(line, column, m));
                match rep {
                    Some(r) => {
                        fixes.push(Correction { start: l.start, end: l.end, replacement: r });
                    },
                    None => {},
                }
            }
        }
        assert(offenses(out@) =~= o + own_result(src, *n, allow_splat, inside).0);
        assert(edits(fixes@) =~= e + own_result(src, *n, allow_splat, inside).1);
        let ghost o1 = offenses(out@);
        let ghost e1 = edits(fixes@);
        let inner = inside || is_hash;
        let kids = children_of(n);
        let ghost cs = kids@.map_values(|x: &Node| *x);
        let mut i: usize = 0;
        while i < kids.len()
            invariant
                i <= kids@.len(),
                cs == kids@.map_values(|x: &Node| *x),
                cs == children(*n),
                src == source.text(),
                ({
                    let c = children_result(src, *n, i as int, allow_splat, inner);
                    offenses(out@) == o1 + c.0 && edits(fixes@) == e1 + c.1
                }),
            decreases kids@.len() - i,
        {
            proof {
                lemma_children_decrease(*n);
            }
            assert(cs[i as int] == *kids[i as int]);
            self.visit(source, kids[i], allow_splat, inner, out, fixes);
            i = i + 1;
        }
        assert(offenses(out@) =~= o + tree_result(src, *n, allow_splat, inside).0);
        assert(edits(fixes@) =~= e + tree_result(src, *n, allow_splat, inside).1);
    }

    /// The offenses and corrections in the tree rooted at `root`, in
    /// traversal order, with the configured `AllowSplatArgument`.
    pub fn check_source(&self, source: &SourceFile, root: &Node, allow_splat: bool) -> (r: (Vec<Diagnostic>, Vec<Correction>))
        ensures
            (offenses(r.0@), edits(r.1@)) == spec_check_source(source.text(), *root, allow_splat),
    {
        let mut out: Vec<Diagnostic> = Vec::new();
        let mut fixes: Vec<Correction> = Vec::new();
        assert(offenses(out@) =~= Seq::<Offense>::empty());
        assert(edits(fixes@) =~= Seq::<Edit>::empty());
        self.visit(source, root, allow_splat, false, &mut out, &mut fixes);
        (out, fixes)
    }
}

/// Inside a `Hash[...]` call nothing is reported or corrected: the
/// traversal below an outer `Hash[...]` yields no offense and no edit.
pub proof fn law_nested_hash_calls_not_reported(src: Seq<u8>, n: Node, allow_splat: bool)
    ensures
        tree_result(src, n, allow_splat, true).0.len() == 0,
        tree_result(src, n, allow_splat, true).1.len() == 0,
    decreases n, children(n).len() + 1,
{
    lemma_nested_children(src, n, children(n).len() as int, allow_splat);
}

proof fn lemma_nested_children(src: Seq<u8>, n: Node, k: int, allow_splat: bool)
    ensures
        children_result(src, n, k, allow_splat, true).0.len() == 0,
        children_result(src, n, k, allow_splat, true).1.len() == 0,
    decreases n, k,
{
    if 0 < k <= children(n).len() {
        lemma_children_decrease(n);
        lemma_nested_children(src, n, k - 1, allow_splat);
        law_nested_hash_calls_not_reported(src, children(n)[k - 1], allow_splat);
    }
}

} // verus!
