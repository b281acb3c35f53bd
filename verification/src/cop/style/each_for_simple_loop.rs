//! Style/EachForSimpleLoop: `(0...n).each { ... }` over a literal range
//! without block parameters, which `n.times { ... }` says more simply.
use vstd::prelude::*;
use vstd::string::StringSliceAdditionalSpecFns;
use crate::ast::{is_other, is_other_exec, Node};
use crate::bytes::{eq_str, src_range, src_range_exec, text_or_empty, text_or_empty_exec};
use crate::diagnostic::{
    decimal, decimal_u128, diagnostic, edits, offense, offenses, str_bytes, Correction,
    Diagnostic, Edit, Offense,
};
use crate::source::{spec_column_of, spec_line_of, SourceFile};

verus! {

/// The cop.
pub struct EachForSimpleLoop;

pub open spec fn simple_loop_msg() -> Seq<u8> {
    "Use `Integer#times` for a simple loop which iterates a fixed number of times.".spec_bytes()
}

/// `s` without its underscores.
pub open spec fn strip_underscores(s: Seq<u8>) -> Seq<u8>
    decreases s.len(),
{
    if s.len() == 0 {
        Seq::empty()
    } else {
        strip_underscores(s.drop_last()) + if s.last() == 95u8 {
            Seq::empty()
        } else {
            seq![s.last()]
        }
    }
}

pub open spec fn is_digit(b: u8) -> bool {
    48u8 <= b <= 57u8
}

/// The value of a string of decimal digits.
pub open spec fn digits_value(s: Seq<u8>) -> int
    decreases s.len(),
{
    if s.len() == 0 {
        0
    } else {
        digits_value(s.drop_last()) * 10 + (s.last() - 48)
    }
}

pub open spec fn all_digits(s: Seq<u8>) -> bool {
    s.len() > 0 && forall|i: int| 0 <= i < s.len() ==> is_digit(#[trigger] s[i])
}

/// What `i64::from_str` gives: an optional sign, then decimal digits, for a
/// value that fits in 64 signed bits.
pub open spec fn parse_i64(s: Seq<u8>) -> Option<int> {
    let neg = s.len() > 0 && s[0] == 45u8;
    let signed = s.len() > 0 && (s[0] == 45u8 || s[0] == 43u8);
    let d = if signed { s.drop_first() } else { s };
    if all_digits(d) {
        let v = if neg { -digits_value(d) } else { digits_value(d) };
        if i64::MIN <= v <= i64::MAX {
            Some(v)
        } else {
            None
        }
    } else {
        None
    }
}

/// The value of an integer literal: its text without underscores, read as
/// a signed 64-bit decimal.
pub open spec fn literal_value(src: Seq<u8>, n: Node) -> Option<int> {
    parse_i64(strip_underscores(text_or_empty(src, n.spec_loc().start as int, n.spec_loc().end as int)))
}

/// The block takes no parameters (empty `||` or `|;x|` count as none).
pub open spec fn no_block_params(b: Node) -> bool {
    match b {
        Node::Block { parameters: None, .. } => true,
        Node::Block { parameters: Some(p), .. } => match *p {
            Node::BlockParameters { parameters: None, .. } => true,
            Node::BlockParameters { parameters: Some(inner), .. } => match *inner {
                Node::Parameters { requireds, optionals, rest, posts, keywords, keyword_rest, block, .. } =>
                    requireds@.len() == 0 && optionals@.len() == 0 && rest is None && posts@.len() == 0
                        && keywords@.len() == 0 && keyword_rest is None && block is None,
                _ => true,
            },
            _ => false,
        },
        _ => false,
    }
}

/// The range inside the parentheses of a receiver like `(0...n)`.
pub open spec fn paren_range(recv: Node) -> Option<Node> {
    if is_other(recv, "ParenthesesNode".spec_bytes()) && recv->Other_children@.len() > 0 {
        let body = recv->Other_children@[0];
        match body {
            Node::Range { .. } => Some(body),
            Node::Statements { body: stmts, .. } => if stmts@.len() == 1 && stmts@[0] is Range {
                Some(stmts@[0])
            } else {
                None
            },
            _ => None,
        }
    } else {
        None
    }
}

/// The number of iterations of a range of two integer values.
pub open spec fn iterations(left: int, right: int, exclusive: bool) -> int {
    let n = if exclusive { right - left } else { right - left + 1 };
    if n < 0 { 0 } else { n }
}

/// The offense and corrections at `n`.
pub open spec fn spec_check_node(src: Seq<u8>, n: Node) -> (Seq<Offense>, Seq<Edit>) {
    let none = (Seq::<Offense>::empty(), Seq::<Edit>::empty());
    match n {
        Node::Call { name, block: Some(b), receiver: Some(recv), message_loc, .. } => if name@ != "each".spec_bytes()
            || !(*b is Block) || !no_block_params(*b) {
            none
        } else {
            match paren_range(*recv) {
                Some(Node::Range { left: Some(lft), right: Some(rgt), operator_loc, .. }) => if *lft is Integer && *rgt is Integer {
                    let start = recv.spec_loc().start as int;
                    (
                        seq![offense(spec_line_of(src, start), spec_column_of(src, start), simple_loop_msg())],
                        match (literal_value(src, *lft), literal_value(src, *rgt)) {
                            (Some(lv), Some(rv)) => {
                                let exclusive = src_range(src, operator_loc.start as int, operator_loc.end as int) == "...".spec_bytes();
                                seq![Edit { start, end: recv.spec_loc().end as int, replacement: decimal(iterations(lv, rv, exclusive) as nat) }]
                                    + match message_loc {
                                        Some(m) => seq![Edit { start: m.start as int, end: m.end as int, replacement: "times".spec_bytes() }],
                                        None => Seq::empty(),
                                    }
                            },
                            _ => Seq::empty(),
                        },
                    )
                } else {
                    none
                },
                _ => none,
            }
        },
        _ => none,
    }
}

proof fn lemma_digits_grow(s: Seq<u8>, i: int, j: int)
    requires
        0 <= i <= j <= s.len(),
        forall|k: int| 0 <= k < s.len() ==> is_digit(#[trigger] s[k]),
    ensures
        digits_value(s.subrange(0, i)) <= digits_value(s.subrange(0, j)),
        digits_value(s.subrange(0, i)) >= 0,
    decreases j - i,
{
    if i < j {
        lemma_digits_grow(s, i, j - 1);
        assert(s.subrange(0, j).drop_last() =~= s.subrange(0, j - 1));
        assert(s.subrange(0, j).last() == s[j - 1]);
        lemma_digits_nonneg(s.subrange(0, j - 1));
    } else {
        lemma_digits_nonneg(s.subrange(0, i));
    }
}

proof fn lemma_digits_nonneg(s: Seq<u8>)
    requires
        forall|k: int| 0 <= k < s.len() ==> is_digit(#[trigger] s[k]),
    ensures
        digits_value(s) >= 0,
    decreases s.len(),
{
    if s.len() > 0 {
        lemma_digits_nonneg(s.drop_last());
    }
}

fn strip_underscores_exec(s: &[u8]) -> (r: Vec<u8>)
    ensures
        r@ == strip_underscores(s@),
{
    let mut out: Vec<u8> = Vec::new();
    let mut i: usize = 0;
    assert(s@.subrange(0, 0) =~= Seq::<u8>::empty());
    while i < s.len()
        invariant
            i <= s@.len(),
            out@ == strip_underscores(s@.subrange(0, i as int)),
        decreases s@.len() - i,
    {
        if s[i] != 95u8 {
            out.push(s[i]);
        }
        assert(s@.subrange(0, i + 1).drop_last() =~= s@.subrange(0, i as int));
        assert(out@ =~= strip_underscores(s@.subrange(0, i + 1)));
        i = i + 1;
    }
    assert(s@.subrange(0, s@.len() as int) =~= s@);
    out
}

fn parse_i64_exec(s: &[u8]) -> (r: Option<i128>)
    ensures
        match r {
            Some(v) => parse_i64(s@) == Some(v as int),
            None => parse_i64(s@) is None,
        },
{
    let neg = s.len() > 0 && s[0] == 45u8;
    let signed = s.len() > 0 && (s[0] == 45u8 || s[0] == 43u8);
    let d = if signed {
        crate::bytes::subslice(s, 1, s.len())
    } else {
        s
    };
    assert(d@ == (if signed { s@.drop_first() } else { s@ }));
    if d.len() == 0 {
        return None;
    }
    let bound: i128 = 9223372036854775808;
    let mut acc: i128 = 0;
    let mut i: usize = 0;
    assert(d@.subrange(0, 0) =~= Seq::<u8>::empty());
    while i < d.len()
        invariant
            i <= d@.len(),
            0 <= acc <= bound,
            bound == 9223372036854775808,
            acc == digits_value(d@.subrange(0, i as int)),
            forall|k: int| 0 <= k < i ==> is_digit(#[trigger] d@[k]),
            d@ == (if signed { s@.drop_first() } else { s@ }),
            neg == (s@.len() > 0 && s@[0] == 45u8),
            signed == (s@.len() > 0 && (s@[0] == 45u8 || s@[0] == 43u8)),
            d@.len() > 0,
        decreases d@.len() - i,
    {
        let b = d[i];
        if !(48u8 <= b && b <= 57u8) {
            assert(!is_digit(d@[i as int]));
            return None;
        }
        assert(d@.subrange(0, i + 1).drop_last() =~= d@.subrange(0, i as int));
        let next = acc * 10 + (b - 48u8) as i128;
        if next > bound {
            proof {
                assert(digits_value(d@.subrange(0, i + 1)) == next);
                if all_digits(d@) {
                    lemma_digits_grow(d@, i + 1, d@.len() as int);
                    assert(d@.subrange(0, d@.len() as int) =~= d@);
                }
            }
            return None;
        }
        acc = next;
        i = i + 1;
    }
    assert(d@.subrange(0, d@.len() as int) =~= d@);
    let v = if neg {
        -acc
    } else {
        acc
    };
    if v > 9223372036854775807 {
        return None;
    }
    Some(v)
}

fn literal_value_exec(src: &[u8], n: &Node) -> (r: Option<i128>)
    ensures
        match r {
            Some(v) => literal_value(src@, *n) == Some(v as int),
            None => literal_value(src@, *n) is None,
        },
{
    let l = n.loc();
    let t = strip_underscores_exec(text_or_empty_exec(src, l.start, l.end));
    parse_i64_exec(t.as_slice())
}

fn no_block_params_exec(b: &Node) -> (r: bool)
    ensures
        r == no_block_params(*b),
{
    match b {
        Node::Block { parameters: None, .. } => true,
        Node::Block { parameters: Some(p), .. } => match &**p {
            Node::BlockParameters { parameters: None, .. } => true,
            Node::BlockParameters { parameters: Some(inner), .. } => match &**inner {
                Node::Parameters { requireds, optionals, rest, posts, keywords, keyword_rest, block, .. } =>
                    requireds.len() == 0 && optionals.len() == 0 && rest.is_none() && posts.len() == 0
                        && keywords.len() == 0 && keyword_rest.is_none() && block.is_none(),
                _ => true,
            },
            _ => false,
        },
        _ => false,
    }
}

fn paren_range_exec(recv: &Node) -> (r: Option<&Node>)
    ensures
        match r {
            Some(x) => paren_range(*recv) == Some(*x),
            None => paren_range(*recv) is None,
        },
{
    match recv {
        Node::Other { children, .. } => {
            if !is_other_exec(recv, "ParenthesesNode") || children.len() == 0 {
                return None;
            }
            let body = &children[0];
            match body {
                Node::Range { .. } => Some(body),
                Node::Statements { body: stmts, .. } => {
                    if stmts.len() == 1 {
                        match &stmts[0] {
                            Node::Range { .. } => Some(&stmts[0]),
                            _ => None,
                        }
                    } else {
                        None
                    }
                },
                _ => None,
            }
        },
        _ => None,
    }
}

impl EachForSimpleLoop {
    pub fn name(&self) -> &'static str {
        "Style/EachForSimpleLoop"
    }

    /// The offense and corrections at `node`.
    pub fn check_node(&self, source: &SourceFile, node: &Node) -> (r: (Vec<Diagnostic>, Vec<Correction>))
        ensures
            (offenses(r.0@), edits(r.1@)) == spec_check_node(source.text(), *node),
    {
        let mut out: Vec<Diagnostic> = Vec::new();
        let mut fixes: Vec<Correction> = Vec::new();
        let ghost res = spec_check_node(source.text(), *node);
        let (name, b, recv, message_loc) = match node {
            Node::Call { name, block: Some(b), receiver: Some(recv), message_loc, .. } => (name, b, recv, message_loc),
            _ => {
                assert(offenses(out@) =~= res.0 && edits(fixes@) =~= res.1);
                return (out, fixes);
            },
        };
        let is_block = match &**b {
            Node::Block { .. } => true,
            _ => false,
        };
        if !eq_str(name.as_slice(), "each") || !is_block || !no_block_params_exec(b) {
            assert(offenses(out@) =~= res.0 && edits(fixes@) =~= res.1);
            return (out, fixes);
        }
        let (lft, rgt, operator_loc) = match paren_range_exec(recv) {
            Some(Node::Range { left: Some(lft), right: Some(rgt), operator_loc, .. }) => (lft, rgt, operator_loc),
            _ => {
                assert(offenses(out@) =~= res.0 && edits(fixes@) =~= res.1);
                return (out, fixes);
            },
        };
        let ints = match (&**lft, &**rgt) {
            (Node::Integer { .. }, Node::Integer { .. }) => true,
            _ => false,
        };
        if !ints {
            assert(offenses(out@) =~= res.0 && edits(fixes@) =~= res.1);
            return (out, fixes);
        }
        let rl = recv.loc();
        let (line, column) = source.position(rl.start);
        out.push(diagnostic(line, column, str_bytes("Use `Integer#times` for a simple loop which iterates a fixed number of times.")));
        let text = source.as_bytes();
        match (literal_value_exec(text, lft), literal_value_exec(text, rgt)) {
            (Some(lv), Some(rv)) => {
                let exclusive = eq_str(src_range_exec(text, operator_loc.start, operator_loc.end), "...");
                let n: i128 = if exclusive {
                    rv - lv
                } else {
                    rv - lv + 1
                };
                let count: u128 = if n < 0 {
                    0
                } else {
                    n as u128
                };
                assert(count == iterations(lv as int, rv as int, exclusive));
                fixes.push(Correction { start: rl.start, end: rl.end, replacement: decimal_u128(count) });
                match message_loc {
                    Some(m) => {
                        fixes.push(Correction { start: m.start, end: m.end, replacement: str_bytes("times") });
                    },
                    None => {},
                }
            },
            _ => {},
        }
        assert(offenses(out@) =~= res.0 && edits(fixes@) =~= res.1);
        (out, fixes)
    }
}

} // verus!
