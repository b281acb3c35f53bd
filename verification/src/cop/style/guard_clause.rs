//! Style/GuardClause: a method body that ends in an `if`/`unless` wrapping
//! its code, where a guard clause would do.
use vstd::prelude::*;
use vstd::string::StringSliceAdditionalSpecFns;
use crate::ast::{flatten, is_other, is_other_exec, preorder, NamedKind, Node};
use crate::bytes::{bytes_eq, eq_str, lossy_utf8, src_range, src_range_exec, utf8_lossy};
use crate::diagnostic::{
    diagnostic, edits, offense, offenses, push_bytes, push_str, str_bytes, Correction, Diagnostic,
    Edit, Offense,
};
use crate::source::{spec_column_of, spec_line_of, SourceFile};

verus! {

/// The cop.
pub struct GuardClause;

/// The lines of a text as `str::lines` gives them: split at `\n`, a `\r`
/// before the `\n` dropped, and no empty last line after a final line break.
pub open spec fn text_lines(s: Seq<u8>) -> Seq<Seq<u8>>
    decreases s.len(),
{
    if s.len() == 0 {
        Seq::empty()
    } else {
        match crate::bytes::find_from(s, seq![10u8], 0) {
            Some(p) => if 0 <= p < s.len() {
                let line = s.subrange(0, p);
                let line = if line.len() > 0 && line.last() == 13u8 {
                    line.drop_last()
                } else {
                    line
                };
                seq![line] + text_lines(s.subrange(p + 1, s.len() as int))
            } else {
                seq![s]
            },
            None => seq![s],
        }
    }
}

/// The lines of `body`, each non-empty one indented by `n` spaces, joined
/// with `\n`.
pub open spec fn indented(lines: Seq<Seq<u8>>, n: nat) -> Seq<u8>
    decreases lines.len(),
{
    if lines.len() == 0 {
        Seq::empty()
    } else {
        let l = lines.last();
        let piece = if l.len() == 0 {
            Seq::empty()
        } else {
            Seq::new(n, |i: int| 32u8) + l
        };
        if lines.len() == 1 {
            piece
        } else {
            indented(lines.drop_last(), n) + seq![10u8] + piece
        }
    }
}

/// The source of a node, decoded lossily.
pub open spec fn node_source(src: Seq<u8>, n: Node) -> Seq<u8> {
    utf8_lossy(src_range(src, n.spec_loc().start as int, n.spec_loc().end as int))
}

pub open spec fn guard_message(example: Seq<u8>) -> Seq<u8> {
    "Use a guard clause (`".spec_bytes() + example
        + "`) instead of wrapping the code inside a conditional expression.".spec_bytes()
}

/// A node that spans more than one line.
pub open spec fn is_multiline(src: Seq<u8>, n: Node) -> bool {
    spec_line_of(src, n.spec_loc().end as int) > spec_line_of(src, n.spec_loc().start as int)
}

/// Whether `n` assigns or targets the local variable `name`.
pub open spec fn writes_local(n: Node, name: Seq<u8>) -> bool {
    n matches Node::Named { kind, name: m, .. } && (kind == NamedKind::LocalVariableWrite || kind
        == NamedKind::LocalVariableTarget) && m@ == name
}

/// Whether `n` reads the local variable `name`.
pub open spec fn reads_local(n: Node, name: Seq<u8>) -> bool {
    n matches Node::Named { kind: NamedKind::LocalVariableRead, name: m, .. } && m@ == name
}

/// The condition assigns a local variable that the statement reads.
pub open spec fn assigned_lvar_used(cond: Node, stmt: Node) -> bool {
    exists|i: int, j: int|
        0 <= i < flatten(cond).len() && 0 <= j < flatten(stmt).len() && (#[trigger] flatten(
            cond,
        )[i]) is Named && writes_local(flatten(cond)[i], flatten(cond)[i]->Named_name@)
            && reads_local(#[trigger] flatten(stmt)[j], flatten(cond)[i]->Named_name@)
}

/// Some statement of the branch reads a local the condition assigns.
pub open spec fn any_assigned_used(cond: Node, stmts: Option<Box<Node>>) -> bool {
    match stmts {
        Some(s) => match *s {
            Node::Statements { body, .. } => exists|k: int|
                0 <= k < body@.len() && assigned_lvar_used(cond, #[trigger] body@[k]),
            _ => false,
        },
        None => false,
    }
}

/// The number of body lines between the keyword line and the end line is
/// at least `min` (a one-line conditional counts as one body line).
pub open spec fn spec_meets_min_body_length(src: Seq<u8>, start: int, end: int, min: int) -> bool {
    let sl = spec_line_of(src, start);
    let el = spec_line_of(src, end);
    let body_lines = if el > sl + 1 {
        el - sl - 1
    } else if el > sl {
        0
    } else {
        1
    };
    body_lines >= min
}

/// The guard clause would not fit `max` columns and the body is a single
/// simple statement (or empty).
pub open spec fn too_long_and_trivial(column: int, example: Seq<u8>, stmts: Option<Box<Node>>, max: int) -> bool {
    if column + example.len() <= max {
        false
    } else {
        match stmts {
            None => true,
            Some(s) => match *s {
                Node::Statements { body, .. } => body@.len() == 1 && !(body@[0] is If || body@[0] is Unless
                    || is_other(body@[0], "BeginNode".spec_bytes())),
                _ => false,
            },
        }
    }
}

/// The configuration the cop reads.
#[derive(Clone, Copy)]
pub struct GuardClauseConfig {
    pub min_body_length: usize,
    pub max_line_length: usize,
}

/// The guard clause and the code of the branch, re-indented to the
/// keyword's column.
pub open spec fn guard_replacement(src: Seq<u8>, keyword: int, example: Seq<u8>, stmts: Node) -> Seq<u8> {
    let body = utf8_lossy(src_range(src, stmts.spec_loc().start as int, stmts.spec_loc().end as int));
    example + seq![10u8] + indented(text_lines(body), spec_column_of(src, keyword) as nat)
}

/// The result of an ending conditional: `kw` its keyword, `word` the
/// opposite keyword for the guard (`unless` for an `if`).
pub open spec fn ending_result(
    src: Seq<u8>,
    n: Node,
    kw: int,
    predicate: Node,
    stmts: Option<Box<Node>>,
    end_kw: Option<crate::source::Loc>,
    word: Seq<u8>,
    cfg: GuardClauseConfig,
) -> (Seq<Offense>, Seq<Edit>) {
    let end_offset = match end_kw {
        Some(e) => e.start as int,
        None => n.spec_loc().end as int,
    };
    let example = "return ".spec_bytes() + word + " ".spec_bytes() + node_source(src, predicate);
    if n.spec_loc().start != kw || is_multiline(src, predicate) || any_assigned_used(predicate, stmts)
        || !spec_meets_min_body_length(src, kw, end_offset, cfg.min_body_length as int)
        || too_long_and_trivial(spec_column_of(src, kw), example, stmts, cfg.max_line_length as int) {
        (Seq::empty(), Seq::empty())
    } else {
        (
            seq![offense(spec_line_of(src, kw), spec_column_of(src, kw), guard_message(example))],
            match (end_kw, stmts) {
                (Some(e), Some(s)) => seq![
                    Edit {
                        start: kw,
                        end: e.end as int,
                        replacement: guard_replacement(src, kw, example, *s),
                    },
                ],
                _ => Seq::empty(),
            },
        )
    }
}

/// The result for a conditional at the end of a method body.
pub open spec fn conditional_result(src: Seq<u8>, c: Node, cfg: GuardClauseConfig) -> (Seq<Offense>, Seq<Edit>) {
    match c {
        Node::If { if_keyword_loc: Some(kw), predicate, statements, subsequent: None, end_keyword_loc, .. } =>
            if src_range(src, kw.start as int, kw.end as int) == "if".spec_bytes() {
            ending_result(src, c, kw.start as int, *predicate, statements, end_keyword_loc, "unless".spec_bytes(), cfg)
        } else {
            (Seq::empty(), Seq::empty())
        },
        Node::Unless { keyword_loc, predicate, statements, else_clause: None, end_keyword_loc, .. } =>
            ending_result(src, c, keyword_loc.start as int, *predicate, statements, end_keyword_loc, "if".spec_bytes(), cfg),
        _ => (Seq::empty(), Seq::empty()),
    }
}

/// The result for a method body: its own conditional, or its last
/// statement's.
pub open spec fn body_result(src: Seq<u8>, body: Node, cfg: GuardClauseConfig) -> (Seq<Offense>, Seq<Edit>) {
    match body {
        Node::Statements { body: b, .. } => if b@.len() > 0 {
            conditional_result(src, b@.last(), cfg)
        } else {
            (Seq::empty(), Seq::empty())
        },
        _ => conditional_result(src, body, cfg),
    }
}

/// The results of the methods among the first `k` nodes of a traversal.
pub open spec fn results_upto(src: Seq<u8>, nodes: Seq<Node>, k: int, cfg: GuardClauseConfig) -> (Seq<Offense>, Seq<Edit>)
    decreases k,
{
    if k <= 0 || k > nodes.len() {
        (Seq::empty(), Seq::empty())
    } else {
        let prev = results_upto(src, nodes, k - 1, cfg);
        match nodes[k - 1] {
            Node::Def { body: Some(b), .. } => {
                let r = body_result(src, *b, cfg);
                (prev.0 + r.0, prev.1 + r.1)
            },
            _ => prev,
        }
    }
}

pub open spec fn spec_check_source(src: Seq<u8>, root: Node, cfg: GuardClauseConfig) -> (Seq<Offense>, Seq<Edit>) {
    results_upto(src, flatten(root), flatten(root).len() as int, cfg)
}

pub fn text_lines_exec(s: &[u8]) -> (r: Vec<Vec<u8>>)
    ensures
        r@.map_values(|v: Vec<u8>| v@) == text_lines(s@),
{
    let mut out: Vec<Vec<u8>> = Vec::new();
    let mut rest: &[u8] = s;
    let nl: Vec<u8> = vec![10u8];
    assert(nl@ =~= seq![10u8]);
    assert(out@.map_values(|v: Vec<u8>| v@) + text_lines(rest@) =~= text_lines(s@));
    while rest.len() > 0
        invariant
            nl@ == seq![10u8],
            out@.map_values(|v: Vec<u8>| v@) + text_lines(rest@) == text_lines(s@),
        decreases rest@.len(),
    {
        let rl = rest.len();
        let ghost before = out@.map_values(|v: Vec<u8>| v@);
        match crate::bytes::find_from_exec(rest, nl.as_slice(), 0) {
            Some(p) => {
                proof {
                    crate::bytes::lemma_find_from(rest@, nl@, 0);
                }
                let mut line: Vec<u8> = Vec::new();
                let end = if p > 0 && rest[p - 1] == 13u8 {
                    p - 1
                } else {
                    p
                };
                push_bytes(&mut line, crate::bytes::subslice(rest, 0, end));
                assert(line@ =~= (if rest@.subrange(0, p as int).len() > 0 && rest@.subrange(0, p as int).last() == 13u8 {
                    rest@.subrange(0, p as int).drop_last()
                } else {
                    rest@.subrange(0, p as int)
                }));
                out.push(line);
                assert(out@.map_values(|v: Vec<u8>| v@) =~= before + seq![line@]);
                rest = crate::bytes::subslice(rest, p + 1, rl);
            },
            None => {
                let mut line: Vec<u8> = Vec::new();
                push_bytes(&mut line, rest);
                out.push(line);
                assert(out@.map_values(|v: Vec<u8>| v@) =~= text_lines(s@));
                return out;
            },
        }
    }
    assert(out@.map_values(|v: Vec<u8>| v@) =~= text_lines(s@));
    out
}

pub fn indented_exec(lines: &Vec<Vec<u8>>, n: usize, out: &mut Vec<u8>)
    ensures
        final(out)@ == old(out)@ + indented(lines@.map_values(|v: Vec<u8>| v@), n as nat),
{
    let ghost ls = lines@.map_values(|v: Vec<u8>| v@);
    let ghost o = out@;
    let mut i: usize = 0;
    assert(ls.subrange(0, 0) =~= Seq::<Seq<u8>>::empty());
    while i < lines.len()
        invariant
            i <= lines@.len(),
            ls == lines@.map_values(|v: Vec<u8>| v@),
            out@ == o + indented(ls.subrange(0, i as int), n as nat),
        decreases lines@.len() - i,
    {
        let ghost before = out@;
        if i > 0 {
            out.push(10u8);
        }
        let l = &lines[i];
        if l.len() > 0 {
            let mut k: usize = 0;
            while k < n
                invariant
                    k <= n,
                    out@ == before + (if i > 0 { seq![10u8] } else { Seq::empty() }) + Seq::new(k as nat, |j: int| 32u8),
                decreases n - k,
            {
                out.push(32u8);
                assert(Seq::new((k + 1) as nat, |j: int| 32u8) =~= Seq::new(k as nat, |j: int| 32u8).push(32u8));
                k = k + 1;
            }
            push_bytes(out, l.as_slice());
        }
        assert(ls.subrange(0, i + 1).drop_last() =~= ls.subrange(0, i as int));
        assert(ls.subrange(0, i + 1).last() == l@);
        assert(out@ =~= o + indented(ls.subrange(0, i + 1), n as nat));
        i = i + 1;
    }
    assert(ls.subrange(0, lines@.len() as int) =~= ls);
}

fn node_source_exec(src: &[u8], n: &Node) -> (r: Vec<u8>)
    ensures
        r@ == node_source(src@, *n),
{
    let l = n.loc();
    lossy_utf8(src_range_exec(src, l.start, l.end))
}

fn assigned_used_exec(cond: &Node, stmt: &Node) -> (r: bool)
    ensures
        r == assigned_lvar_used(*cond, *stmt),
{
    let wn = preorder(cond);
    let rn = preorder(stmt);
    let ghost ws = wn@.map_values(|x: &Node| *x);
    let ghost rs = rn@.map_values(|x: &Node| *x);
    let mut i: usize = 0;
    while i < wn.len()
        invariant
            i <= wn@.len(),
            ws == wn@.map_values(|x: &Node| *x),
            rs == rn@.map_values(|x: &Node| *x),
            ws == flatten(*cond),
            rs == flatten(*stmt),
            forall|a: int, j: int| 0 <= a < i && 0 <= j < rs.len() ==> !((#[trigger] ws[a]) is Named
                && writes_local(ws[a], ws[a]->Named_name@) && reads_local(#[trigger] rs[j], ws[a]->Named_name@)),
        decreases wn@.len() - i,
    {
        let w = wn[i];
        assert(ws[i as int] == *w);
        match w {
            Node::Named { kind, name, .. } => {
                if *kind == NamedKind::LocalVariableWrite || *kind == NamedKind::LocalVariableTarget {
                    let mut j: usize = 0;
                    while j < rn.len()
                        invariant
                            j <= rn@.len(),
                            i < ws.len(),
                            ws == flatten(*cond),
                            rs == flatten(*stmt),
                            ws[i as int] == *w,
                            writes_local(*w, name@),
                            rs == rn@.map_values(|x: &Node| *x),
                            *w matches Node::Named { name: m, .. } && m == *name,
                            forall|q: int| 0 <= q < j ==> !reads_local(#[trigger] rs[q], name@),
                        decreases rn@.len() - j,
                    {
                        let x = rn[j];
                        assert(rs[j as int] == *x);
                        let hit = match x {
                            Node::Named { kind: NamedKind::LocalVariableRead, name: m, .. } => bytes_eq(m.as_slice(), name.as_slice()),
                            _ => false,
                        };
                        if hit {
                            assert(reads_local(rs[j as int], ws[i as int]->Named_name@));
                            assert(flatten(*cond)[i as int] is Named && writes_local(flatten(*cond)[i as int], flatten(*cond)[i as int]->Named_name@)
                                && reads_local(flatten(*stmt)[j as int], flatten(*cond)[i as int]->Named_name@));
                            return true;
                        }
                        j = j + 1;
                    }
                }
            },
            _ => {},
        }
        i = i + 1;
    }
    false
}

fn any_assigned_used_exec(cond: &Node, stmts: &Option<Box<Node>>) -> (r: bool)
    ensures
        r == any_assigned_used(*cond, *stmts),
{
    let body = match stmts {
        Some(s) => match &**s {
            Node::Statements { body, .. } => body,
            _ => {
                return false;
            },
        },
        None => {
            return false;
        },
    };
    let mut k: usize = 0;
    assert(any_assigned_used(*cond, *stmts) == exists|q: int|
        0 <= q < body@.len() && assigned_lvar_used(*cond, #[trigger] body@[q]));
    while k < body.len()
        invariant
            k <= body@.len(),
            any_assigned_used(*cond, *stmts) == exists|q: int|
                0 <= q < body@.len() && assigned_lvar_used(*cond, #[trigger] body@[q]),
            forall|q: int| 0 <= q < k ==> !assigned_lvar_used(*cond, #[trigger] body@[q]),
        decreases body@.len() - k,
    {
        if assigned_used_exec(cond, &body[k]) {
            assert(assigned_lvar_used(*cond, body@[k as int]));
            return true;
        }
        k = k + 1;
    }
    false
}

/// The source and the configuration of a traversal.
pub struct GuardClauseVisitor<'a> {
    pub source: &'a SourceFile,
    pub min_body_length: usize,
    pub max_line_length: usize,
}

impl<'a> GuardClauseVisitor<'a> {
    pub open spec fn cfg(&self) -> GuardClauseConfig {
        GuardClauseConfig { min_body_length: self.min_body_length, max_line_length: self.max_line_length }
    }

    /// Whether the conditional from `start_offset` to `end_offset` has at
    /// least the configured number of body lines.
    pub fn meets_min_body_length(&self, start_offset: usize, end_offset: usize) -> (r: bool)
        ensures
            r == spec_meets_min_body_length(
                self.source.text(),
                start_offset as int,
                end_offset as int,
                self.min_body_length as int,
            ),
    {
        let sl = self.source.position(start_offset).0;
        let el = self.source.position(end_offset).0;
        let body_lines: usize = if el > sl && el - sl > 1 {
            el - sl - 1
        } else if el > sl {
            0
        } else {
            1
        };
        body_lines >= self.min_body_length
    }

    fn is_multiline_exec(&self, n: &Node) -> (r: bool)
        ensures
            r == is_multiline(self.source.text(), *n),
    {
        let l = n.loc();
        self.source.position(l.end).0 > self.source.position(l.start).0
    }

    fn too_long_and_trivial_exec(&self, column: usize, example: &Vec<u8>, stmts: &Option<Box<Node>>) -> (r: bool)
        ensures
            r == too_long_and_trivial(column as int, example@, *stmts, self.max_line_length as int),
    {
        if column <= self.max_line_length && example.len() <= self.max_line_length - column {
            return false;
        }
        match stmts {
            None => true,
            Some(s) => match &**s {
                Node::Statements { body, .. } => {
                    if body.len() != 1 {
                        return false;
                    }
                    let single = &body[0];
                    let complex = match single {
                        Node::If { .. } => true,
                        Node::Unless { .. } => true,
                        _ => is_other_exec(single, "BeginNode"),
                    };
                    !complex
                },
                _ => false,
            },
        }
    }

    fn ending_result_exec(
        &self,
        n: &Node,
        kw: usize,
        predicate: &Node,
        stmts: &Option<Box<Node>>,
        end_kw: &Option<crate::source::Loc>,
        word: &str,
        out: &mut Vec<Diagnostic>,
        fixes: &mut Vec<Correction>,
    )
        ensures
            ({
                let r = ending_result(self.source.text(), *n, kw as int, *predicate, *stmts, *end_kw, word.spec_bytes(), self.cfg());
                offenses(final(out)@) == offenses(old(out)@) + r.0 && edits(final(fixes)@) == edits(old(fixes)@) + r.1
            }),
    {
        let ghost o = offenses(out@);
        let ghost e = edits(fixes@);
        let ghost src = self.source.text();
        let ghost r = ending_result(src, *n, kw as int, *predicate, *stmts, *end_kw, word.spec_bytes(), self.cfg());
        let end_offset = match end_kw {
            Some(l) => l.start,
            None => n.loc().end,
        };
        let text = self.source.as_bytes();
        let mut example: Vec<u8> = Vec::new();
        push_str(&mut example, "return ");
        push_str(&mut example, word);
        push_str(&mut example, " ");
        let cs = node_source_exec(text, predicate);
        push_bytes(&mut example, cs.as_slice());
        let (line, column) = self.source.position(kw);
        if n.loc().start != kw || self.is_multiline_exec(predicate) || any_assigned_used_exec(predicate, stmts)
            || !self.meets_min_body_length(kw, end_offset) || self.too_long_and_trivial_exec(column, &example, stmts) {
            assert(offenses(out@) =~= o + r.0 && edits(fixes@) =~= e + r.1);
            return;
        }
        let mut m: Vec<u8> = Vec::new();
        push_str(&mut m, "Use a guard clause (`");
        push_bytes(&mut m, example.as_slice());
        push_str(&mut m, "`) instead of wrapping the code inside a conditional expression.");
        out.push(diagnostic(line, column, m));
        match (end_kw, stmts) {
            (Some(ek), Some(s)) => {
                let sl = s.loc();
                let body = lossy_utf8(src_range_exec(text, sl.start, sl.end));
                let lines = text_lines_exec(body.as_slice());
                let mut rep: Vec<u8> = Vec::new();
                push_bytes(&mut rep, example.as_slice());
                rep.push(10u8);
                indented_exec(&lines, column, &mut rep);
                assert(rep@ =~= guard_replacement(src, kw as int, example@, **s));
                fixes.push(Correction { start: kw, end: ek.end, replacement: rep });
            },
            _ => {},
        }
        assert(offenses(out@) =~= o + r.0 && edits(fixes@) =~= e + r.1);
    }

    fn conditional_exec(&self, c: &Node, out: &mut Vec<Diagnostic>, fixes: &mut Vec<Correction>)
        ensures
            ({
                let r = conditional_result(self.source.text(), *c, self.cfg());
                offenses(final(out)@) == offenses(old(out)@) + r.0 && edits(final(fixes)@) == edits(old(fixes)@) + r.1
            }),
    {
        match c {
            Node::If { if_keyword_loc: Some(kw), predicate, statements, subsequent: None, end_keyword_loc, .. } => {
                if eq_str(src_range_exec(self.source.as_bytes(), kw.start, kw.end), "if") {
                    self.ending_result_exec(c, kw.start, predicate, statements, end_keyword_loc, "unless", out, fixes);
                } else {
                    assert(offenses(out@) =~= offenses(out@) + Seq::<Offense>::empty());
                    assert(edits(fixes@) =~= edits(fixes@) + Seq::<Edit>::empty());
                }
            },
            Node::Unless { keyword_loc, predicate, statements, else_clause: None, end_keyword_loc, .. } => {
                self.ending_result_exec(c, keyword_loc.start, predicate, statements, end_keyword_loc, "if", out, fixes);
            },
            _ => {
                assert(offenses(out@) =~= offenses(out@) + Seq::<Offense>::empty());
                assert(edits(fixes@) =~= edits(fixes@) + Seq::<Edit>::empty());
            },
        }
    }

    fn body_exec(&self, body: &Node, out: &mut Vec<Diagnostic>, fixes: &mut Vec<Correction>)
        ensures
            ({
                let r = body_result(self.source.text(), *body, self.cfg());
                offenses(final(out)@) == offenses(old(out)@) + r.0 && edits(final(fixes)@) == edits(old(fixes)@) + r.1
            }),
    {
        match body {
            Node::Statements { body: b, .. } => {
                if b.len() > 0 {
                    self.conditional_exec(&b[b.len() - 1], out, fixes);
                } else {
                    assert(offenses(out@) =~= offenses(out@) + Seq::<Offense>::empty());
                    assert(edits(fixes@) =~= edits(fixes@) + Seq::<Edit>::empty());
                }
            },
            _ => self.conditional_exec(body, out, fixes),
        }
    }
}

impl GuardClause {
    pub fn name(&self) -> &'static str {
        "Style/GuardClause"
    }

    /// The offenses and corrections for every method in the tree rooted at
    /// `root`, in traversal order.
    pub fn check_source(&self, source: &SourceFile, root: &Node, cfg: GuardClauseConfig) -> (r: (Vec<Diagnostic>, Vec<Correction>))
        ensures
            (offenses(r.0@), edits(r.1@)) == spec_check_source(source.text(), *root, cfg),
    {
        let v = GuardClauseVisitor { source, min_body_length: cfg.min_body_length, max_line_length: cfg.max_line_length };
        let nodes = preorder(root);
        let ghost ns = nodes@.map_values(|x: &Node| *x);
        let ghost src = source.text();
        let mut out: Vec<Diagnostic> = Vec::new();
        let mut fixes: Vec<Correction> = Vec::new();
        assert(offenses(out@) =~= Seq::<Offense>::empty());
        assert(edits(fixes@) =~= Seq::<Edit>::empty());
        let mut i: usize = 0;
        while i < nodes.len()
            invariant
                i <= nodes@.len(),
                ns == nodes@.map_values(|x: &Node| *x),
                ns == flatten(*root),
                src == source.text(),
                v.source == source,
                v.cfg() == cfg,
                results_upto(src, ns, i as int, cfg) == (offenses(out@), edits(fixes@)),
            decreases nodes@.len() - i,
        {
            let n = nodes[i];
            assert(ns[i as int] == *n);
            match n {
                Node::Def { body: Some(b), .. } => v.body_exec(b, &mut out, &mut fixes),
                _ => {},
            }
            i = i + 1;
        }
        (out, fixes)
    }
}

/// `u` is the `unless` form of the `if` `i`: the same keyword position,
/// condition, branch and end, and neither has an `else`.
pub open spec fn unless_form_of(u: Node, i: Node) -> bool {
    match (u, i) {
        (
            Node::Unless { loc: l1, keyword_loc: k1, predicate: p1, statements: s1, else_clause: None, end_keyword_loc: e1, .. },
            Node::If { loc: l2, if_keyword_loc: Some(k2), predicate: p2, statements: s2, subsequent: None, end_keyword_loc: e2, .. },
        ) => l1 == l2 && k1 == k2 && p1 == p2 && s1 == s2 && e1 == e2,
        _ => false,
    }
}

/// `if` and `unless` are judged alike: a method-ending `unless P` is
/// reported and corrected exactly when the same `if P` is, as `return if P`
/// where the `if` form asks for `return unless P` (when the longer guard
/// line fits the maximum length, so the length rule treats both alike).
pub proof fn law_unless_mirrors_if(src: Seq<u8>, u: Node, i: Node, cfg: GuardClauseConfig)
    requires
        unless_form_of(u, i),
        ({
            let kw = i->If_if_keyword_loc->0;
            &&& src_range(src, kw.start as int, kw.end as int) == "if".spec_bytes()
            &&& spec_column_of(src, kw.start as int) + 14 + node_source(src, *i->If_predicate).len()
                <= cfg.max_line_length
        }),
    ensures
        ({
            let ru = conditional_result(src, u, cfg);
            let ri = conditional_result(src, i, cfg);
            let kw = i->If_if_keyword_loc->0.start as int;
            let p = node_source(src, *i->If_predicate);
            &&& ru.0.len() == ri.0.len()
            &&& ru.1.len() == ri.1.len()
            &&& ru.0.len() > 0 ==> ru.0 == seq![offense(spec_line_of(src, kw), spec_column_of(src, kw),
                "Use a guard clause (`return if ".spec_bytes() + p
                    + "`) instead of wrapping the code inside a conditional expression.".spec_bytes())]
            &&& ri.0.len() > 0 ==> ri.0 == seq![offense(spec_line_of(src, kw), spec_column_of(src, kw),
                "Use a guard clause (`return unless ".spec_bytes() + p
                    + "`) instead of wrapping the code inside a conditional expression.".spec_bytes())]
        }),
{
    broadcast use vstd::string::group_string_axioms;
    reveal_strlit("return ");
    reveal_strlit("if");
    reveal_strlit("unless");
    reveal_strlit(" ");
    reveal_strlit("Use a guard clause (`return if ");
    reveal_strlit("Use a guard clause (`return unless ");
    reveal_strlit("Use a guard clause (`");
    assert(vstd::string::is_ascii("return ") && vstd::string::is_ascii("if") && vstd::string::is_ascii("unless")
        && vstd::string::is_ascii(" ") && vstd::string::is_ascii("Use a guard clause (`return if ")
        && vstd::string::is_ascii("Use a guard clause (`return unless ") && vstd::string::is_ascii("Use a guard clause (`"));
    assert("return ".spec_bytes().len() == 7 && "if".spec_bytes().len() == 2 && "unless".spec_bytes().len() == 6
        && " ".spec_bytes().len() == 1);
    let kw = i->If_if_keyword_loc->0.start as int;
    let p = node_source(src, *i->If_predicate);
    let exu = "return ".spec_bytes() + "if".spec_bytes() + " ".spec_bytes() + p;
    let exi = "return ".spec_bytes() + "unless".spec_bytes() + " ".spec_bytes() + p;
    let stmts = i->If_statements;
    assert(!too_long_and_trivial(spec_column_of(src, kw), exu, stmts, cfg.max_line_length as int));
    assert(!too_long_and_trivial(spec_column_of(src, kw), exi, stmts, cfg.max_line_length as int));
    assert("Use a guard clause (`".spec_bytes() + exu =~= "Use a guard clause (`return if ".spec_bytes() + p);
    assert("Use a guard clause (`".spec_bytes() + exi =~= "Use a guard clause (`return unless ".spec_bytes() + p);
    assert(guard_message(exu) =~= "Use a guard clause (`return if ".spec_bytes() + p
        + "`) instead of wrapping the code inside a conditional expression.".spec_bytes());
    assert(guard_message(exi) =~= "Use a guard clause (`return unless ".spec_bytes() + p
        + "`) instead of wrapping the code inside a conditional expression.".spec_bytes());
}

} // verus!
