//! Style/BisectedAttrAccessor: an attribute with both an `attr_reader` and
//! an `attr_writer` of one visibility, which should be one `attr_accessor`.
use vstd::prelude::*;
use vstd::string::StringSliceAdditionalSpecFns;
use crate::ast::{call_args_exec, Node};
use crate::bytes::{bytes_eq, eq_str, utf8_is_valid};
use crate::cop::style::accessor_grouping::{
    class_body, class_body_exec, extend_to_line_break, is_visibility_name, line_contains_only_call,
    line_start_offset, spec_extend_to_line_break, spec_line_contains_only_call, visibility_of,
};
use crate::diagnostic::{
    diagnostic, edits, offense, offenses, push_bytes, push_str, str_bytes, Correction, Diagnostic,
    Edit, Offense,
};
use crate::source::{line_start, spec_column_of, spec_line_of, SourceFile};

verus! {

/// The cop.
pub struct BisectedAttrAccessor;

/// One attribute named by a reader or writer declaration.
pub struct Occ {
    pub name: Seq<u8>,
    pub vis: u8,
    pub line: int,
    pub column: int,
    pub call_start: int,
    pub call_end: int,
    pub msg_start: int,
    pub msg_end: int,
    pub arg_count: int,
}

/// The executable form of [`Occ`].
pub struct Occurrence {
    pub name: Vec<u8>,
    pub vis: u8,
    pub line: usize,
    pub column: usize,
    pub call_start: usize,
    pub call_end: usize,
    pub msg_start: usize,
    pub msg_end: usize,
    pub arg_count: usize,
}

impl View for Occurrence {
    type V = Occ;

    open spec fn view(&self) -> Occ {
        Occ {
            name: self.name@,
            vis: self.vis,
            line: self.line as int,
            column: self.column as int,
            call_start: self.call_start as int,
            call_end: self.call_end as int,
            msg_start: self.msg_start as int,
            msg_end: self.msg_end as int,
            arg_count: self.arg_count as int,
        }
    }
}

pub open spec fn occ_views(v: Seq<Occurrence>) -> Seq<Occ> {
    v.map_values(|o: Occurrence| o@)
}

/// A bare visibility modifier without receiver, arguments or block.
pub open spec fn is_bare_modifier(s: Node) -> bool {
    s matches Node::Call { receiver: None, name, arguments: None, block: None, .. }
        && is_visibility_name(name@)
}

/// The visibility in force before statement `k` (0 public, 1 private,
/// 2 protected).
pub open spec fn vis_before(stmts: Seq<Node>, k: int) -> u8
    decreases k,
{
    if k <= 0 {
        0u8
    } else if is_bare_modifier(stmts[k - 1]) {
        visibility_of(stmts[k - 1]->Call_name@)
    } else {
        vis_before(stmts, k - 1)
    }
}

pub open spec fn is_reader_name(name: Seq<u8>) -> bool {
    name == "attr_reader".spec_bytes() || name == "attr".spec_bytes()
}

pub open spec fn is_writer_name(name: Seq<u8>) -> bool {
    name == "attr_writer".spec_bytes()
}

/// The name of an attribute symbol: its bytes if they are UTF-8, else empty.
pub open spec fn attr_name(bytes: Seq<u8>) -> Seq<u8> {
    if vstd::utf8::valid_utf8(bytes) {
        bytes
    } else {
        Seq::empty()
    }
}

/// The occurrences from the first `k` arguments of the declaration `c`.
pub open spec fn arg_occs(src: Seq<u8>, c: Node, vis: u8, k: int) -> Seq<Occ>
    decreases k,
{
    if k <= 0 || k > c.call_args().len() {
        Seq::empty()
    } else {
        let a = c.call_args()[k - 1];
        arg_occs(src, c, vis, k - 1) + match (a, c->Call_message_loc) {
            (Node::Symbol { unescaped, .. }, Some(m)) => seq![
                Occ {
                    name: attr_name(unescaped@),
                    vis,
                    line: spec_line_of(src, a.spec_loc().start as int),
                    column: spec_column_of(src, a.spec_loc().start as int),
                    call_start: c.spec_loc().start as int,
                    call_end: c.spec_loc().end as int,
                    msg_start: m.start as int,
                    msg_end: m.end as int,
                    arg_count: c.call_args().len() as int,
                },
            ],
            _ => Seq::empty(),
        }
    }
}

/// The occurrences a statement adds to the readers (`reader`) or the writers.
pub open spec fn stmt_occs(src: Seq<u8>, s: Node, vis: u8, reader: bool) -> Seq<Occ> {
    match s {
        Node::Call { receiver: None, name, arguments: Some(_), .. } => if !is_bare_modifier(s) && (
        if reader {
            is_reader_name(name@)
        } else {
            is_writer_name(name@)
        }) {
            arg_occs(src, s, vis, s.call_args().len() as int)
        } else {
            Seq::empty()
        },
        _ => Seq::empty(),
    }
}

/// The reader (or writer) occurrences of the first `k` statements.
pub open spec fn occs_upto(src: Seq<u8>, stmts: Seq<Node>, k: int, reader: bool) -> Seq<Occ>
    decreases k,
{
    if k <= 0 {
        Seq::empty()
    } else {
        occs_upto(src, stmts, k - 1, reader) + stmt_occs(
            src,
            stmts[k - 1],
            vis_before(stmts, k - 1),
            reader,
        )
    }
}

pub open spec fn has_pair(v: Seq<Occ>, vis: u8, name: Seq<u8>) -> bool {
    exists|i: int| 0 <= i < v.len() && (#[trigger] v[i]).vis == vis && v[i].name == name
}

/// Whether both a reader and a writer name `name` under `vis`.
pub open spec fn bisected(rs: Seq<Occ>, ws: Seq<Occ>, vis: u8, name: Seq<u8>) -> bool {
    has_pair(rs, vis, name) && has_pair(ws, vis, name)
}

pub open spec fn combine_message(name: Seq<u8>) -> Seq<u8> {
    "Combine both accessors into `attr_accessor :".spec_bytes() + name + "`.".spec_bytes()
}

/// The offenses of the occurrences `v` of bisected attributes, in order.
pub open spec fn occ_offenses(v: Seq<Occ>, rs: Seq<Occ>, ws: Seq<Occ>) -> Seq<Offense>
    decreases v.len(),
{
    if v.len() == 0 {
        Seq::empty()
    } else {
        let o = v.last();
        occ_offenses(v.drop_last(), rs, ws) + if bisected(rs, ws, o.vis, o.name) {
            seq![offense(o.line, o.column, combine_message(o.name))]
        } else {
            Seq::empty()
        }
    }
}

/// The index of the first occurrence in `v` with `vis` and `name` (and a
/// single argument, if `single`), looking from `i`.
pub open spec fn first_index(v: Seq<Occ>, vis: u8, name: Seq<u8>, single: bool, i: int) -> Option<int>
    decreases v.len() - i,
{
    if i < 0 || i >= v.len() {
        None
    } else if v[i].vis == vis && v[i].name == name && (!single || v[i].arg_count == 1) {
        Some(i)
    } else {
        first_index(v, vis, name, single, i + 1)
    }
}

/// The corrections for the pair of the reader at `k`: rename the declaration
/// that comes first to `attr_accessor` and delete the line of the other,
/// when both declare only this attribute and the other stands alone on its
/// line (inside the text).
pub open spec fn pair_edits(src: Seq<u8>, rs: Seq<Occ>, ws: Seq<Occ>, k: int) -> Seq<Edit> {
    let o = rs[k];
    match (first_index(rs, o.vis, o.name, true, 0), first_index(ws, o.vis, o.name, true, 0)) {
        (Some(ri), Some(wi)) => {
            let r = rs[ri];
            let w = ws[wi];
            let keep = if r.call_start <= w.call_start { r } else { w };
            let remove = if r.call_start <= w.call_start { w } else { r };
            if remove.call_start <= src.len() && remove.call_end <= src.len()
                && spec_line_contains_only_call(src, remove.call_start, remove.call_end) {
                seq![
                    Edit {
                        start: keep.msg_start,
                        end: keep.msg_end,
                        replacement: "attr_accessor".spec_bytes(),
                    },
                    Edit {
                        start: line_start(src, remove.call_start),
                        end: spec_extend_to_line_break(src, remove.call_end),
                        replacement: Seq::empty(),
                    },
                ]
            } else {
                Seq::empty()
            }
        },
        _ => Seq::empty(),
    }
}

/// The corrections of the bisected pairs, each taken at its first reader,
/// for the first `k` readers.
pub open spec fn pairs_upto(src: Seq<u8>, rs: Seq<Occ>, ws: Seq<Occ>, k: int) -> Seq<Edit>
    decreases k,
{
    if k <= 0 || k > rs.len() {
        Seq::empty()
    } else {
        let o = rs[k - 1];
        pairs_upto(src, rs, ws, k - 1) + if bisected(rs, ws, o.vis, o.name) && first_index(
            rs,
            o.vis,
            o.name,
            false,
            0,
        ) == Some(k - 1) {
            pair_edits(src, rs, ws, k - 1)
        } else {
            Seq::empty()
        }
    }
}

/// The offenses and corrections at `n`.
pub open spec fn spec_check_node(src: Seq<u8>, n: Node) -> (Seq<Offense>, Seq<Edit>) {
    match class_body(n) {
        Some(stmts) => {
            let rs = occs_upto(src, stmts, stmts.len() as int, true);
            let ws = occs_upto(src, stmts, stmts.len() as int, false);
            (occ_offenses(rs + ws, rs, ws), pairs_upto(src, rs, ws, rs.len() as int))
        },
        None => (Seq::empty(), Seq::empty()),
    }
}

fn is_bare_modifier_exec(s: &Node) -> (r: bool)
    ensures
        r == is_bare_modifier(*s),
{
    match s {
        Node::Call { receiver: None, name, arguments: None, block: None, .. } => eq_str(
            name.as_slice(),
            "private",
        ) || eq_str(name.as_slice(), "protected") || eq_str(name.as_slice(), "public"),
        _ => false,
    }
}

fn vis_of_exec(name: &[u8]) -> (r: u8)
    ensures
        r == visibility_of(name@),
{
    if eq_str(name, "private") {
        1
    } else if eq_str(name, "protected") {
        2
    } else {
        0
    }
}

fn collect_stmt(source: &SourceFile, s: &Node, vis: u8, reader: bool, out: &mut Vec<Occurrence>)
    ensures
        occ_views(final(out)@) == occ_views(old(out)@) + stmt_occs(source.text(), *s, vis, reader),
{
    let ghost o = occ_views(out@);
    let ghost src = source.text();
    let (name, message_loc) = match s {
        Node::Call { receiver: None, name, arguments: Some(_), message_loc, .. } => (name, message_loc),
        _ => {
            assert(occ_views(out@) =~= o + stmt_occs(src, *s, vis, reader));
            return;
        },
    };
    let wanted = if reader {
        eq_str(name.as_slice(), "attr_reader") || eq_str(name.as_slice(), "attr")
    } else {
        eq_str(name.as_slice(), "attr_writer")
    };
    if is_bare_modifier_exec(s) || !wanted {
        assert(occ_views(out@) =~= o + stmt_occs(src, *s, vis, reader));
        return;
    }
    let args = call_args_exec(s);
    let mut k: usize = 0;
    assert(occ_views(out@) =~= o + arg_occs(src, *s, vis, 0));
    while k < args.len()
        invariant
            k <= args@.len(),
            args@ == s.call_args(),
            src == source.text(),
            *message_loc == s->Call_message_loc,
            occ_views(out@) == o + arg_occs(src, *s, vis, k as int),
        decreases args@.len() - k,
    {
        let a = &args[k];
        let ghost before = occ_views(out@);
        match (a, message_loc) {
            (Node::Symbol { unescaped, .. }, Some(m)) => {
                let nm = if utf8_is_valid(unescaped.as_slice()) {
                    let mut v: Vec<u8> = Vec::new();
                    push_bytes(&mut v, unescaped.as_slice());
                    v
                } else {
                    Vec::new()
                };
                assert(nm@ =~= attr_name(unescaped@));
                let (line, column) = source.position(a.loc().start);
                let l = s.loc();
                out.push(
                    Occurrence {
                        name: nm,
                        vis,
                        line,
                        column,
                        call_start: l.start,
                        call_end: l.end,
                        msg_start: m.start,
                        msg_end: m.end,
                        arg_count: args.len(),
                    },
                );
                assert(occ_views(out@) =~= before + seq![occ_views(out@).last()]);
            },
            _ => {},
        }
        assert(occ_views(out@) =~= o + arg_occs(src, *s, vis, k + 1));
        k = k + 1;
    }
}

fn has_pair_exec(v: &Vec<Occurrence>, vis: u8, name: &[u8]) -> (r: bool)
    ensures
        r == has_pair(occ_views(v@), vis, name@),
{
    let mut i: usize = 0;
    while i < v.len()
        invariant
            i <= v@.len(),
            forall|j: int| 0 <= j < i ==> !((#[trigger] occ_views(v@)[j]).vis == vis && occ_views(v@)[j].name == name@),
        decreases v@.len() - i,
    {
        if v[i].vis == vis && bytes_eq(v[i].name.as_slice(), name) {
            assert(occ_views(v@)[i as int].vis == vis && occ_views(v@)[i as int].name == name@);
            return true;
        }
        i = i + 1;
    }
    false
}

fn first_index_exec(v: &Vec<Occurrence>, vis: u8, name: &[u8], single: bool) -> (r: Option<usize>)
    ensures
        match r {
            Some(i) => first_index(occ_views(v@), vis, name@, single, 0) == Some(i as int) && i
                < v@.len(),
            None => first_index(occ_views(v@), vis, name@, single, 0) is None,
        },
{
    let ghost w = occ_views(v@);
    let mut i: usize = 0;
    while i < v.len()
        invariant
            i <= v@.len(),
            w == occ_views(v@),
            first_index(w, vis, name@, single, 0) == first_index(w, vis, name@, single, i as int),
        decreases v@.len() - i,
    {
        if v[i].vis == vis && bytes_eq(v[i].name.as_slice(), name) && (!single || v[i].arg_count
            == 1) {
            return Some(i);
        }
        i = i + 1;
    }
    None
}

impl BisectedAttrAccessor {
    pub fn name(&self) -> &'static str {
        "Style/BisectedAttrAccessor"
    }

    fn pair_edits_exec(
        &self,
        source: &SourceFile,
        rs: &Vec<Occurrence>,
        ws: &Vec<Occurrence>,
        k: usize,
        fixes: &mut Vec<Correction>,
    )
        requires
            k < rs@.len(),
        ensures
            edits(final(fixes)@) == edits(old(fixes)@) + pair_edits(
                source.text(),
                occ_views(rs@),
                occ_views(ws@),
                k as int,
            ),
    {
        let ghost e = edits(fixes@);
        let o = &rs[k];
        let ri = first_index_exec(rs, o.vis, o.name.as_slice(), true);
        let wi = first_index_exec(ws, o.vis, o.name.as_slice(), true);
        let (ri, wi) = match (ri, wi) {
            (Some(a), Some(b)) => (a, b),
            _ => {
                assert(edits(fixes@) =~= e + Seq::<Edit>::empty());
                return;
            },
        };
        let r = &rs[ri];
        let w = &ws[wi];
        let (keep, remove) = if r.call_start <= w.call_start {
            (r, w)
        } else {
            (w, r)
        };
        let n = source.len();
        if remove.call_start <= n && remove.call_end <= n && line_contains_only_call(
            source,
            remove.call_start,
            remove.call_end,
        ) {
            fixes.push(
                Correction {
                    start: keep.msg_start,
                    end: keep.msg_end,
                    replacement: str_bytes("attr_accessor"),
                },
            );
            let ds = line_start_offset(source, remove.call_start);
            let de = extend_to_line_break(source, remove.call_end);
            let empty: Vec<u8> = Vec::new();
            assert(empty@ =~= Seq::<u8>::empty());
            fixes.push(Correction { start: ds, end: de, replacement: empty });
            assert(edits(fixes@) =~= e + pair_edits(
                source.text(),
                occ_views(rs@),
                occ_views(ws@),
                k as int,
            ));
        } else {
            assert(edits(fixes@) =~= e + Seq::<Edit>::empty());
        }
    }

    /// The offenses and corrections at `node`: in a class, module or
    /// singleton class body, the attributes with both a reader and a writer
    /// of one visibility, and the corrections that combine them.
    pub fn check_node(&self, source: &SourceFile, node: &Node) -> (r: (
        Vec<Diagnostic>,
        Vec<Correction>,
    ))
        ensures
            (offenses(r.0@), edits(r.1@)) == spec_check_node(source.text(), *node),
    {
        let mut out: Vec<Diagnostic> = Vec::new();
        let mut fixes: Vec<Correction> = Vec::new();
        assert(offenses(out@) =~= Seq::<Offense>::empty());
        assert(edits(fixes@) =~= Seq::<Edit>::empty());
        let stmts = match class_body_exec(node) {
            Some(b) => b,
            None => {
                return (out, fixes);
            },
        };
        let ghost src = source.text();
        let ghost ss = stmts@;
        let mut readers: Vec<Occurrence> = Vec::new();
        let mut writers: Vec<Occurrence> = Vec::new();
        let mut vis: u8 = 0;
        let mut i: usize = 0;
        assert(occ_views(readers@) =~= Seq::<Occ>::empty());
        assert(occ_views(writers@) =~= Seq::<Occ>::empty());
        while i < stmts.len()
            invariant
                i <= ss.len(),
                ss == stmts@,
                src == source.text(),
                vis == vis_before(ss, i as int),
                occ_views(readers@) == occs_upto(src, ss, i as int, true),
                occ_views(writers@) == occs_upto(src, ss, i as int, false),
            decreases ss.len() - i,
        {
            let s = &stmts[i];
            collect_stmt(source, s, vis, true, &mut readers);
            collect_stmt(source, s, vis, false, &mut writers);
            if is_bare_modifier_exec(s) {
                vis = match s {
                    Node::Call { name, .. } => vis_of_exec(name.as_slice()),
                    _ => 0,
                };
            }
            i = i + 1;
        }
        let ghost rs = occ_views(readers@);
        let ghost ws = occ_views(writers@);
        let ghost all = rs + ws;
        assert(all.subrange(0, 0) =~= Seq::<Occ>::empty());
        let mut pass: usize = 0;
        while pass < 2
            invariant
                pass <= 2,
                rs == occ_views(readers@),
                ws == occ_views(writers@),
                all == rs + ws,
                offenses(out@) == occ_offenses(
                    all.subrange(0, if pass == 0 { 0 } else if pass == 1 { rs.len() as int } else { all.len() as int }),
                    rs,
                    ws,
                ),
            decreases 2 - pass,
        {
            let v = if pass == 0 { &readers } else { &writers };
            let ghost base: int = if pass == 0 { 0 } else { rs.len() as int };
            let mut k: usize = 0;
            while k < v.len()
                invariant
                    k <= v@.len(),
                    pass < 2,
                    v@ == if pass == 0 { readers@ } else { writers@ },
                    base == if pass == 0 { 0 } else { rs.len() as int },
                    rs == occ_views(readers@),
                    ws == occ_views(writers@),
                    all == rs + ws,
                    offenses(out@) == occ_offenses(all.subrange(0, base + k), rs, ws),
                decreases v@.len() - k,
            {
                let o = &v[k];
                assert(o@ == all[base + k]);
                assert(all.subrange(0, base + k + 1).drop_last() =~= all.subrange(0, base + k));
                if has_pair_exec(&readers, o.vis, o.name.as_slice()) && has_pair_exec(
                    &writers,
                    o.vis,
                    o.name.as_slice(),
                ) {
                    let mut m: Vec<u8> = Vec::new();
                    push_str(&mut m, "Combine both accessors into `attr_accessor :");
                    push_bytes(&mut m, o.name.as_slice());
                    push_str(&mut m, "`.");
                    let ghost b = out@;
                    out.push(diagnostic(o.line, o.column, m));
                    assert(offenses(out@) =~= offenses(b) + seq![offenses(out@).last()]);
                }
                assert(offenses(out@) =~= occ_offenses(all.subrange(0, base + k + 1), rs, ws));
                k = k + 1;
            }
            pass = pass + 1;
        }
        assert(all.subrange(0, all.len() as int) =~= all);
        let mut k: usize = 0;
        while k < readers.len()
            invariant
                k <= rs.len(),
                rs == occ_views(readers@),
                ws == occ_views(writers@),
                src == source.text(),
                edits(fixes@) == pairs_upto(src, rs, ws, k as int),
            decreases rs.len() - k,
        {
            let o = &readers[k];
            if has_pair_exec(&readers, o.vis, o.name.as_slice()) && has_pair_exec(
                &writers,
                o.vis,
                o.name.as_slice(),
            ) {
                match first_index_exec(&readers, o.vis, o.name.as_slice(), false) {
                    Some(f) => {
                        if f == k {
                            self.pair_edits_exec(source, &readers, &writers, k, &mut fixes);
                        }
                    },
                    None => {},
                }
            }
            assert(edits(fixes@) =~= pairs_upto(src, rs, ws, k + 1));
            k = k + 1;
        }
        (out, fixes)
    }
}

} // verus!
