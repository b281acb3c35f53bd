//! Style/CombinableLoops: consecutive loops over the same collection with the
//! same method and arguments.
use vstd::prelude::*;
use vstd::string::StringSliceAdditionalSpecFns;
use crate::ast::Node;
use crate::bytes::{
    bytes_eq, ends_with, ends_with_str, eq_str, starts_with, starts_with_str, str_trim,
    str_trim_end, text_slice, text_slice_exec, trim_end_text, trim_text, utf8_is_valid,
};
use crate::diagnostic::{
    diagnostic, edits, offense, offenses, push_bytes, push_str, str_bytes, Correction, Diagnostic,
    Edit, Offense,
};
use crate::source::{spec_column_of, spec_line_of, SourceFile};

verus! {

/// The cop.
pub struct CombinableLoops;

pub open spec fn combine_msg() -> Seq<u8> {
    "Combine this loop with the previous loop.".spec_bytes()
}

/// What makes two loops the same: the collection's source, the method and
/// the arguments' source.
pub struct LoopKey {
    pub receiver: Seq<u8>,
    pub method: Seq<u8>,
    pub arguments: Seq<u8>,
}

pub open spec fn spec_is_collection_looping_method(name: Seq<u8>) -> bool {
    starts_with(name, "each".spec_bytes()) || ends_with(name, "_each".spec_bytes())
}

/// The key of a loop statement: a `for` loop, or a call of a looping method
/// with a receiver and a block (a literal block must have a body).
pub open spec fn loop_info(src: Seq<u8>, n: Node) -> Option<LoopKey> {
    match n {
        Node::For { collection, .. } => match text_slice(
            src,
            collection.spec_loc().start as int,
            collection.spec_loc().end as int,
        ) {
            Some(t) => Some(
                LoopKey { receiver: t, method: "for".spec_bytes(), arguments: Seq::empty() },
            ),
            None => None,
        },
        Node::Call { name, block: Some(b), receiver: Some(r), arguments, .. } => {
            if !vstd::utf8::valid_utf8(name@) || !spec_is_collection_looping_method(name@) {
                None
            } else if (*b matches Node::Block { body: None, .. }) {
                None
            } else {
                match text_slice(src, r.spec_loc().start as int, r.spec_loc().end as int) {
                    Some(t) => Some(
                        LoopKey {
                            receiver: t,
                            method: name@,
                            arguments: match arguments {
                                Some(a) => match text_slice(
                                    src,
                                    a.spec_loc().start as int,
                                    a.spec_loc().end as int,
                                ) {
                                    Some(x) => x,
                                    None => Seq::empty(),
                                },
                                None => Seq::empty(),
                            },
                        },
                    ),
                    None => None,
                }
            }
        },
        _ => None,
    }
}

/// Statements `i` and `j` are loops with the same key.
pub open spec fn same_loop(src: Seq<u8>, stmts: Seq<Node>, i: int, j: int) -> bool {
    0 <= i < stmts.len() && 0 <= j < stmts.len() && loop_info(src, stmts[i]) is Some && loop_info(
        src,
        stmts[j],
    ) == loop_info(src, stmts[i])
}

/// The text of `src[a..b)`, or nothing when it is not UTF-8 text in range.
pub open spec fn slice_or_empty(src: Seq<u8>, a: int, b: int) -> Seq<u8> {
    match text_slice(src, a, b) {
        Some(t) => t,
        None => Seq::empty(),
    }
}

/// The statements of a block body, when it is a statements node.
pub open spec fn block_stmts(b: Node) -> Option<Seq<Node>> {
    match b {
        Node::Block { body: Some(body), .. } => match *body {
            Node::Statements { body: s, .. } => Some(s@),
            _ => None,
        },
        _ => None,
    }
}

/// The literal block of a call.
pub open spec fn call_block(c: Node) -> Option<Node> {
    match c {
        Node::Call { block: Some(b), .. } => if *b is Block {
            Some(*b)
        } else {
            None
        },
        _ => None,
    }
}

/// The source of a block's parameters.
pub open spec fn params_text(src: Seq<u8>, b: Node) -> Option<Seq<u8>> {
    match b {
        Node::Block { parameters: Some(p), .. } => Some(
            slice_or_empty(src, p.spec_loc().start as int, p.spec_loc().end as int),
        ),
        _ => None,
    }
}

/// One brace block that does both statements, for two one-statement brace
/// blocks with the same parameters.
pub open spec fn combined(src: Seq<u8>, prev: Node, curr: Node) -> Option<Seq<u8>> {
    match (call_block(prev), call_block(curr)) {
        (Some(pb), Some(cb)) => {
            let po = pb->Block_opening_loc;
            let co = cb->Block_opening_loc;
            if crate::bytes::src_range(
                src,
                po.start as int,
                po.end as int,
            ) != "{".spec_bytes() || crate::bytes::src_range(src, co.start as int, co.end as int)
                != "{".spec_bytes() {
                None
            } else if params_text(src, pb) != params_text(src, cb) {
                None
            } else {
                match (block_stmts(pb), block_stmts(cb)) {
                    (Some(ps), Some(cs)) => if ps.len() != 1 || cs.len() != 1 {
                        None
                    } else {
                        let p_src = str_trim(
                            slice_or_empty(src, ps[0].spec_loc().start as int, ps[0].spec_loc().end as int),
                        );
                        let c_src = str_trim(
                            slice_or_empty(src, cs[0].spec_loc().start as int, cs[0].spec_loc().end as int),
                        );
                        let header = str_trim_end(
                            slice_or_empty(src, prev.spec_loc().start as int, po.start as int),
                        );
                        let params = match params_text(src, pb) {
                            Some(t) => t,
                            None => Seq::empty(),
                        };
                        let params_part = if params.len() == 0 {
                            Seq::empty()
                        } else {
                            params + " ".spec_bytes()
                        };
                        Some(
                            header + "{ ".spec_bytes() + params_part + p_src + "; ".spec_bytes()
                                + c_src + " }".spec_bytes(),
                        )
                    },
                    _ => None,
                }
            }
        },
        _ => None,
    }
}

/// The offenses and corrections for the pairs among the first `k`
/// statements: a loop like the one before it is reported; when the pair is
/// alone (no like loop before it or after it), the two brace blocks are
/// merged where they can be.
pub open spec fn pairs_upto(src: Seq<u8>, stmts: Seq<Node>, k: int) -> (Seq<Offense>, Seq<Edit>)
    decreases k,
{
    if k <= 1 || k > stmts.len() {
        (Seq::empty(), Seq::empty())
    } else {
        let i = k - 1;
        let prev = pairs_upto(src, stmts, k - 1);
        if same_loop(src, stmts, i - 1, i) {
            let off = offense(
                spec_line_of(src, stmts[i].spec_loc().start as int),
                spec_column_of(src, stmts[i].spec_loc().start as int),
                combine_msg(),
            );
            let alone = !(i >= 2 && same_loop(src, stmts, i - 2, i - 1)) && !(i + 1 < stmts.len()
                && same_loop(src, stmts, i, i + 1));
            let fix = if alone {
                match combined(src, stmts[i - 1], stmts[i]) {
                    Some(t) => seq![
                        Edit {
                            start: stmts[i - 1].spec_loc().start as int,
                            end: stmts[i].spec_loc().end as int,
                            replacement: t,
                        },
                    ],
                    None => Seq::empty(),
                }
            } else {
                Seq::empty()
            };
            (prev.0.push(off), prev.1 + fix)
        } else {
            prev
        }
    }
}

/// The statements the cop looks at under `n`.
pub open spec fn statement_list(n: Node) -> Option<Seq<Node>> {
    match n {
        Node::Statements { body, .. } => Some(body@),
        Node::Program { statements, .. } => match *statements {
            Node::Statements { body, .. } => Some(body@),
            _ => None,
        },
        _ => None,
    }
}

pub open spec fn spec_check_node(src: Seq<u8>, n: Node) -> (Seq<Offense>, Seq<Edit>) {
    match statement_list(n) {
        Some(stmts) => pairs_upto(src, stmts, stmts.len() as int),
        None => (Seq::empty(), Seq::empty()),
    }
}

/// Whether a method name loops over a collection: `each...` or `..._each`.
pub fn is_collection_looping_method(method_name: &[u8]) -> (r: bool)
    ensures
        r == spec_is_collection_looping_method(method_name@),
{
    starts_with_str(method_name, "each") || ends_with_str(method_name, "_each")
}

/// The executable form of [`LoopKey`].
struct LoopInfo<'a> {
    receiver: &'a [u8],
    method: &'a [u8],
    arguments: &'a [u8],
}

spec fn key_view(i: LoopInfo) -> LoopKey {
    LoopKey { receiver: i.receiver@, method: i.method@, arguments: i.arguments@ }
}

fn loop_info_exec<'a>(src: &'a [u8], n: &'a Node) -> (r: Option<LoopInfo<'a>>)
    ensures
        match r {
            Some(i) => loop_info(src@, *n) == Some(key_view(i)),
            None => loop_info(src@, *n) is None,
        },
{
    match n {
        Node::For { collection, .. } => {
            let l = collection.loc();
            match text_slice_exec(src, l.start, l.end) {
                Some(t) => {
                    let e: &[u8] = &[];
                    assert(e@ =~= Seq::<u8>::empty());
                    let m = "for".as_bytes();
                    assert(m@ == "for".spec_bytes());
                    Some(LoopInfo { receiver: t, method: m, arguments: e })
                },
                None => None,
            }
        },
        Node::Call { name, block: Some(b), receiver: Some(r), arguments, .. } => {
            if !utf8_is_valid(name.as_slice()) || !is_collection_looping_method(name.as_slice()) {
                return None;
            }
            match &**b {
                Node::Block { body: None, .. } => {
                    return None;
                },
                _ => {},
            }
            let rl = r.loc();
            match text_slice_exec(src, rl.start, rl.end) {
                Some(t) => {
                    let args: &[u8] = match arguments {
                        Some(a) => {
                            let al = a.loc();
                            match text_slice_exec(src, al.start, al.end) {
                                Some(x) => x,
                                None => {
                                    let e: &[u8] = &[];
                                    assert(e@ =~= Seq::<u8>::empty());
                                    e
                                },
                            }
                        },
                        None => {
                            let e: &[u8] = &[];
                            assert(e@ =~= Seq::<u8>::empty());
                            e
                        },
                    };
                    Some(LoopInfo { receiver: t, method: name.as_slice(), arguments: args })
                },
                None => None,
            }
        },
        _ => None,
    }
}

fn same_info(a: &LoopInfo, b: &LoopInfo) -> (r: bool)
    ensures
        r == (key_view(*a) == key_view(*b)),
{
    bytes_eq(a.receiver, b.receiver) && bytes_eq(a.method, b.method) && bytes_eq(
        a.arguments,
        b.arguments,
    )
}

fn same_loop_exec(src: &[u8], stmts: &Vec<Node>, i: usize, j: usize) -> (r: bool)
    requires
        i < stmts@.len(),
        j < stmts@.len(),
    ensures
        r == same_loop(src@, stmts@, i as int, j as int),
{
    match (loop_info_exec(src, &stmts[i]), loop_info_exec(src, &stmts[j])) {
        (Some(a), Some(b)) => same_info(&a, &b),
        _ => false,
    }
}

fn slice_or_empty_exec(src: &[u8], a: usize, b: usize) -> (r: &[u8])
    ensures
        r@ == slice_or_empty(src@, a as int, b as int),
        vstd::utf8::valid_utf8(r@),
{
    match text_slice_exec(src, a, b) {
        Some(t) => t,
        None => {
            let e: &[u8] = &[];
            assert(e@ =~= Seq::<u8>::empty());
            e
        },
    }
}

fn call_block_exec(c: &Node) -> (r: Option<&Node>)
    ensures
        match r {
            Some(b) => call_block(*c) == Some(*b),
            None => call_block(*c) is None,
        },
{
    match c {
        Node::Call { block: Some(b), .. } => match &**b {
            Node::Block { .. } => Some(&**b),
            _ => None,
        },
        _ => None,
    }
}

fn params_text_exec<'a>(src: &'a [u8], b: &'a Node) -> (r: Option<&'a [u8]>)
    ensures
        match r {
            Some(t) => params_text(src@, *b) == Some(t@) && vstd::utf8::valid_utf8(t@),
            None => params_text(src@, *b) is None,
        },
{
    match b {
        Node::Block { parameters: Some(p), .. } => {
            let l = p.loc();
            Some(slice_or_empty_exec(src, l.start, l.end))
        },
        _ => None,
    }
}

fn opt_bytes_eq(a: Option<&[u8]>, b: Option<&[u8]>) -> (r: bool)
    ensures
        r == (match (a, b) {
            (Some(x), Some(y)) => x@ == y@,
            (None, None) => true,
            _ => false,
        }),
{
    match (a, b) {
        (Some(x), Some(y)) => bytes_eq(x, y),
        (None, None) => true,
        _ => false,
    }
}

fn block_stmts_exec(b: &Node) -> (r: Option<&Vec<Node>>)
    ensures
        match r {
            Some(v) => block_stmts(*b) == Some(v@),
            None => block_stmts(*b) is None,
        },
{
    match b {
        Node::Block { body: Some(body), .. } => match &**body {
            Node::Statements { body: s, .. } => Some(s),
            _ => None,
        },
        _ => None,
    }
}

fn combined_exec(src: &[u8], prev: &Node, curr: &Node) -> (r: Option<Vec<u8>>)
    ensures
        match r {
            Some(v) => combined(src@, *prev, *curr) == Some(v@),
            None => combined(src@, *prev, *curr) is None,
        },
{
    let (pb, cb) = match (call_block_exec(prev), call_block_exec(curr)) {
        (Some(pb), Some(cb)) => (pb, cb),
        _ => {
            return None;
        },
    };
    let (po, co) = match (pb, cb) {
        (Node::Block { opening_loc: po, .. }, Node::Block { opening_loc: co, .. }) => (po, co),
        _ => {
            return None;
        },
    };
    if !eq_str(crate::bytes::src_range_exec(src, po.start, po.end), "{") || !eq_str(
        crate::bytes::src_range_exec(src, co.start, co.end),
        "{",
    ) {
        return None;
    }
    let pp = params_text_exec(src, pb);
    let cp = params_text_exec(src, cb);
    if !opt_bytes_eq(pp, cp) {
        assert(params_text(src@, *pb) != params_text(src@, *cb));
        return None;
    }
    let (ps, cs) = match (block_stmts_exec(pb), block_stmts_exec(cb)) {
        (Some(ps), Some(cs)) => (ps, cs),
        _ => {
            return None;
        },
    };
    if ps.len() != 1 || cs.len() != 1 {
        return None;
    }
    let p0 = ps[0].loc();
    let c0 = cs[0].loc();
    let p_src = trim_text(slice_or_empty_exec(src, p0.start, p0.end));
    let c_src = trim_text(slice_or_empty_exec(src, c0.start, c0.end));
    let header = trim_end_text(slice_or_empty_exec(src, prev.loc().start, po.start));
    let mut out: Vec<u8> = Vec::new();
    push_bytes(&mut out, header.as_slice());
    push_str(&mut out, "{ ");
    match pp {
        Some(t) => {
            if t.len() > 0 {
                push_bytes(&mut out, t);
                push_str(&mut out, " ");
            }
        },
        None => {},
    }
    push_bytes(&mut out, p_src.as_slice());
    push_str(&mut out, "; ");
    push_bytes(&mut out, c_src.as_slice());
    push_str(&mut out, " }");
    assert(out@ =~= combined(src@, *prev, *curr)->Some_0);
    Some(out)
}

impl CombinableLoops {
    pub fn name(&self) -> &'static str {
        "Style/CombinableLoops"
    }

    /// The offenses and corrections for the statements of a program or a
    /// statements node.
    pub fn check_node(&self, source: &SourceFile, node: &Node) -> (r: (Vec<Diagnostic>, Vec<Correction>))
        ensures
            (offenses(r.0@), edits(r.1@)) == spec_check_node(source.text(), *node),
    {
        let mut out: Vec<Diagnostic> = Vec::new();
        let mut fixes: Vec<Correction> = Vec::new();
        assert(offenses(out@) =~= Seq::<Offense>::empty());
        assert(edits(fixes@) =~= Seq::<Edit>::empty());
        let stmts = match node {
            Node::Statements { body, .. } => body,
            Node::Program { statements, .. } => match &**statements {
                Node::Statements { body, .. } => body,
                _ => {
                    return (out, fixes);
                },
            },
            _ => {
                return (out, fixes);
            },
        };
        let ghost src = source.text();
        let ghost ss = stmts@;
        let text = source.as_bytes();
        let n = stmts.len();
        let mut i: usize = 1;
        while i < n
            invariant
                1 <= i,
                i <= n || n == 0,
                n == ss.len(),
                ss == stmts@,
                src == source.text(),
                text@ == src,
                (offenses(out@), edits(fixes@)) == pairs_upto(src, ss, i as int),
            decreases n - i,
        {
            if same_loop_exec(text, stmts, i - 1, i) {
                let (line, column) = source.position(stmts[i].loc().start);
                let ghost b = out@;
                out.push(diagnostic(line, column, str_bytes("Combine this loop with the previous loop.")));
                assert(offenses(out@) =~= offenses(b).push(offenses(out@).last()));
                let alone = !(i >= 2 && same_loop_exec(text, stmts, i - 2, i - 1)) && !(i + 1 < n
                    && same_loop_exec(text, stmts, i, i + 1));
                let ghost e = edits(fixes@);
                if alone {
                    match combined_exec(text, &stmts[i - 1], &stmts[i]) {
                        Some(t) => {
                            fixes.push(
                                Correction {
                                    start: stmts[i - 1].loc().start,
                                    end: stmts[i].loc().end,
                                    replacement: t,
                                },
                            );
                        },
                        None => {},
                    }
                }
                assert(edits(fixes@) =~= pairs_upto(src, ss, i + 1).1);
            }
            i = i + 1;
        }
        (out, fixes)
    }
}

} // verus!
