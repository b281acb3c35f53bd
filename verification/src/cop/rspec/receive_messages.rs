//! RSpec/ReceiveMessages: several `allow(x).to receive(:m).and_return(v)`
//! stubs of one receiver in a block, which one `receive_messages` call says.
//!
//! The stubs of a block are taken in order.  A stub starts a group of
//! itself and the later stubs of the same receiver (text); a group of two
//! or more whose messages are all different is reported, each stub at its
//! start, unless an earlier stub of that receiver already started a
//! reported group.
use vstd::prelude::*;
use vstd::string::StringSliceAdditionalSpecFns;
use crate::ast::{call_args_exec, is_other, is_other_exec, Node};
use crate::bytes::{bytes_eq, eq_str, src_range, src_range_exec, starts_with, starts_with_str, text_or_empty, text_or_empty_exec};
use crate::diagnostic::{diagnostic, offense, offenses, str_bytes, Diagnostic, Offense};
use crate::source::{spec_column_of, spec_line_of, SourceFile};

verus! {

/// The cop.
pub struct ReceiveMessages;

/// One stub: the text of the stubbed receiver, the text of the message
/// symbol, and where the statement starts.
pub struct StubInfo {
    pub receiver_text: Vec<u8>,
    pub receive_msg: Vec<u8>,
    pub offset: usize,
}

/// A stub as values.
pub struct Stub {
    pub receiver: Seq<u8>,
    pub msg: Seq<u8>,
    pub offset: int,
}

impl View for StubInfo {
    type V = Stub;

    open spec fn view(&self) -> Stub {
        Stub { receiver: self.receiver_text@, msg: self.receive_msg@, offset: self.offset as int }
    }
}

/// A splat, or a string written as a heredoc.
pub open spec fn heredoc_or_splat(src: Seq<u8>, n: Node) -> bool {
    match n {
        Node::Str { opening_loc: Some(o), .. } => starts_with(src_range(src, o.start as int, o.end as int), "<<".spec_bytes()),
        Node::InterpolatedStr { opening_loc: Some(o), .. } => starts_with(src_range(src, o.start as int, o.end as int), "<<".spec_bytes()),
        _ => is_other(n, "SplatNode".spec_bytes()),
    }
}

/// The stub a statement is, if it has the shape
/// `allow(x).to receive(:m).and_return(v)` with one plain value `v`.
pub open spec fn stub_of(src: Seq<u8>, n: Node) -> Option<Stub> {
    match n {
        Node::Call { name, block: None, receiver: Some(allow), loc, .. } => {
            let to_args = n.call_args();
            if name@ == "to".spec_bytes() && to_args.len() == 1 {
                match (*allow, to_args[0]) {
                    (
                        Node::Call { name: aname, receiver: None, .. },
                        Node::Call { name: rname, block: None, receiver: Some(recv), .. },
                    ) => {
                        let and_return = to_args[0];
                        match *recv {
                            Node::Call { name: vname, receiver: None, block: None, .. } => {
                                let ra = (*recv).call_args();
                                let va = and_return.call_args();
                                if aname@ == "allow".spec_bytes() && (*allow).call_args().len() > 0
                                    && rname@ == "and_return".spec_bytes() && vname@ == "receive".spec_bytes()
                                    && ra.len() == 1 && ra[0] is Symbol && va.len() == 1
                                    && !heredoc_or_splat(src, va[0]) {
                                    let x = (*allow).call_args()[0].spec_loc();
                                    let m = ra[0].spec_loc();
                                    Some(Stub {
                                        receiver: text_or_empty(src, x.start as int, x.end as int),
                                        msg: text_or_empty(src, m.start as int, m.end as int),
                                        offset: loc.start as int,
                                    })
                                } else {
                                    None
                                }
                            },
                            _ => None,
                        }
                    },
                    _ => None,
                }
            } else {
                None
            }
        },
        _ => None,
    }
}

/// The stubs among `stmts`, in order.
pub open spec fn stubs(src: Seq<u8>, stmts: Seq<Node>) -> Seq<Stub>
    decreases stmts.len(),
{
    if stmts.len() == 0 {
        Seq::empty()
    } else {
        stubs(src, stmts.drop_last()) + match stub_of(src, stmts.last()) {
            Some(s) => seq![s],
            None => Seq::empty(),
        }
    }
}

/// The group started by stub `i` has another member, and its messages are
/// all different.
pub open spec fn qualifies(s: Seq<Stub>, i: int) -> bool {
    &&& exists|j: int| i < j < s.len() && (#[trigger] s[j]).receiver == s[i].receiver
    &&& forall|j: int, k: int|
        i <= j < k < s.len() && (#[trigger] s[j]).receiver == s[i].receiver && (#[trigger] s[k]).receiver
            == s[i].receiver ==> s[j].msg != s[k].msg
}

/// Stub `i` starts a reported group: it qualifies and no earlier stub of the
/// same receiver does.
pub open spec fn reported(s: Seq<Stub>, i: int) -> bool {
    qualifies(s, i) && forall|k: int| 0 <= k < i && (#[trigger] s[k]).receiver == s[i].receiver ==> !qualifies(s, k)
}

/// The offenses of the group started by stub `i`, among stubs `i..m`.
pub open spec fn group_offenses(src: Seq<u8>, s: Seq<Stub>, i: int, m: int) -> Seq<Offense>
    decreases m - i,
{
    if m <= i {
        Seq::empty()
    } else {
        group_offenses(src, s, i, m - 1) + if s[m - 1].receiver == s[i].receiver {
            seq![offense(spec_line_of(src, s[m - 1].offset), spec_column_of(src, s[m - 1].offset), "Use `receive_messages` instead of multiple stubs.".spec_bytes())]
        } else {
            Seq::empty()
        }
    }
}

/// The offenses of the groups started by the first `k` stubs.
pub open spec fn block_offenses(src: Seq<u8>, s: Seq<Stub>, k: int) -> Seq<Offense>
    decreases k,
{
    if k <= 0 {
        Seq::empty()
    } else {
        block_offenses(src, s, k - 1) + if reported(s, k - 1) {
            group_offenses(src, s, k - 1, s.len() as int)
        } else {
            Seq::empty()
        }
    }
}

/// The statements of a block.
pub open spec fn block_statements(n: Node) -> Option<Seq<Node>> {
    match n {
        Node::Block { body: Some(b), .. } => match *b {
            Node::Statements { body, .. } => Some(body@),
            _ => None,
        },
        _ => None,
    }
}

pub open spec fn spec_check_node(src: Seq<u8>, n: Node) -> Seq<Offense> {
    match block_statements(n) {
        Some(stmts) => {
            let s = stubs(src, stmts);
            block_offenses(src, s, s.len() as int)
        },
        None => Seq::empty(),
    }
}

pub open spec fn stub_views(v: Seq<StubInfo>) -> Seq<Stub> {
    v.map_values(|x: StubInfo| x@)
}

fn heredoc_or_splat_exec(src: &[u8], n: &Node) -> (r: bool)
    ensures
        r == heredoc_or_splat(src@, *n),
{
    match n {
        Node::Str { opening_loc: Some(o), .. } => starts_with_str(src_range_exec(src, o.start, o.end), "<<"),
        Node::InterpolatedStr { opening_loc: Some(o), .. } => starts_with_str(src_range_exec(src, o.start, o.end), "<<"),
        _ => is_other_exec(n, "SplatNode"),
    }
}

/// The stub a statement is, if any.
pub fn extract_allow_receive_info(src: &[u8], n: &Node) -> (r: Option<StubInfo>)
    ensures
        match r {
            Some(x) => stub_of(src@, *n) == Some(x@),
            None => stub_of(src@, *n) is None,
        },
{
    match n {
        Node::Call { name, block: None, receiver: Some(allow), loc, .. } => {
            let to_args = call_args_exec(n);
            if !eq_str(name.as_slice(), "to") || to_args.len() != 1 {
                return None;
            }
            let and_return = &to_args[0];
            match (&**allow, and_return) {
                (
                    Node::Call { name: aname, receiver: None, .. },
                    Node::Call { name: rname, block: None, receiver: Some(recv), .. },
                ) => match &**recv {
                    Node::Call { name: vname, receiver: None, block: None, .. } => {
                        let aa = call_args_exec(allow);
                        let ra = call_args_exec(recv);
                        let va = call_args_exec(and_return);
                        if !eq_str(aname.as_slice(), "allow") || aa.len() == 0 || !eq_str(rname.as_slice(), "and_return")
                            || !eq_str(vname.as_slice(), "receive") || ra.len() != 1 || va.len() != 1 {
                            return None;
                        }
                        let is_sym = match &ra[0] {
                            Node::Symbol { .. } => true,
                            _ => false,
                        };
                        if !is_sym || heredoc_or_splat_exec(src, &va[0]) {
                            return None;
                        }
                        let x = aa[0].loc();
                        let m = ra[0].loc();
                        let rt = text_or_empty_exec(src, x.start, x.end);
                        let mt = text_or_empty_exec(src, m.start, m.end);
                        let mut rv: Vec<u8> = Vec::new();
                        crate::diagnostic::push_bytes(&mut rv, rt);
                        let mut mv: Vec<u8> = Vec::new();
                        crate::diagnostic::push_bytes(&mut mv, mt);
                        Some(StubInfo { receiver_text: rv, receive_msg: mv, offset: loc.start })
                    },
                    _ => None,
                },
                _ => None,
            }
        },
        _ => None,
    }
}

fn qualifies_exec(s: &Vec<StubInfo>, i: usize) -> (r: bool)
    requires
        i < s@.len(),
    ensures
        r == qualifies(stub_views(s@), i as int),
{
    let ghost v = stub_views(s@);
    let n = s.len();
    let mut found = false;
    let mut j: usize = i + 1;
    while j < n
        invariant
            i < j <= n,
            n == s@.len(),
            v == stub_views(s@),
            found == exists|k: int| i < k < j && (#[trigger] v[k]).receiver == v[i as int].receiver,
        decreases n - j,
    {
        assert(v[j as int] == s@[j as int]@);
        assert(v[i as int] == s@[i as int]@);
        if bytes_eq(s[j].receiver_text.as_slice(), s[i].receiver_text.as_slice()) {
            found = true;
            assert(i < j < j + 1 && v[j as int].receiver == v[i as int].receiver);
        }
        j = j + 1;
    }
    if !found {
        return false;
    }
    // all messages of the group differ
    let mut a: usize = i;
    while a < n
        invariant
            i <= a <= n,
            i < n,
            n == s@.len(),
            v == stub_views(s@),
            v[i as int] == s@[i as int]@,
            forall|j: int, k: int|
                i <= j < a && j < k < n && (#[trigger] v[j]).receiver == v[i as int].receiver && (#[trigger] v[k]).receiver
                    == v[i as int].receiver ==> v[j].msg != v[k].msg,
        decreases n - a,
    {
        assert(v[a as int] == s@[a as int]@);
        assert(v[i as int] == s@[i as int]@);
        if bytes_eq(s[a].receiver_text.as_slice(), s[i].receiver_text.as_slice()) {
            let mut b: usize = a + 1;
            while b < n
                invariant
                    i <= a < b <= n,
                    i < n,
                    n == s@.len(),
                    v == stub_views(s@),
                    v[i as int] == s@[i as int]@,
                    v[a as int] == s@[a as int]@,
                    v[a as int].receiver == v[i as int].receiver,
                    forall|k: int|
                        a < k < b && (#[trigger] v[k]).receiver == v[i as int].receiver ==> v[a as int].msg != v[k].msg,
                decreases n - b,
            {
                assert(v[b as int] == s@[b as int]@);
                if bytes_eq(s[b].receiver_text.as_slice(), s[i].receiver_text.as_slice())
                    && bytes_eq(s[b].receive_msg.as_slice(), s[a].receive_msg.as_slice()) {
                    assert(!(forall|j: int, k: int|
                        i <= j < k < n && (#[trigger] v[j]).receiver == v[i as int].receiver && (#[trigger] v[k]).receiver
                            == v[i as int].receiver ==> v[j].msg != v[k].msg)) by {
                        assert(v[a as int].receiver == v[i as int].receiver && v[b as int].receiver == v[i as int].receiver);
                    }
                    return false;
                }
                b = b + 1;
            }
        }
        a = a + 1;
    }
    true
}

fn reported_exec(s: &Vec<StubInfo>, i: usize) -> (r: bool)
    requires
        i < s@.len(),
    ensures
        r == reported(stub_views(s@), i as int),
{
    let ghost v = stub_views(s@);
    if !qualifies_exec(s, i) {
        return false;
    }
    let mut k: usize = 0;
    while k < i
        invariant
            k <= i < s@.len(),
            v == stub_views(s@),
            forall|j: int| 0 <= j < k && (#[trigger] v[j]).receiver == v[i as int].receiver ==> !qualifies(v, j),
        decreases i - k,
    {
        assert(v[k as int] == s@[k as int]@);
        assert(v[i as int] == s@[i as int]@);
        if bytes_eq(s[k].receiver_text.as_slice(), s[i].receiver_text.as_slice()) && qualifies_exec(s, k) {
            return false;
        }
        k = k + 1;
    }
    true
}

impl ReceiveMessages {
    pub fn name(&self) -> &'static str {
        "RSpec/ReceiveMessages"
    }

    /// The offenses for the stubs in the block `node`.
    pub fn check_node(&self, source: &SourceFile, node: &Node) -> (r: Vec<Diagnostic>)
        ensures
            offenses(r@) == spec_check_node(source.text(), *node),
    {
        let mut out: Vec<Diagnostic> = Vec::new();
        let src = source.as_bytes();
        let ghost text = source.text();
        let stmts = match node {
            Node::Block { body: Some(b), .. } => match &**b {
                Node::Statements { body, .. } => body,
                _ => {
                    return out;
                },
            },
            _ => {
                return out;
            },
        };
        let mut s: Vec<StubInfo> = Vec::new();
        let mut i: usize = 0;
        while i < stmts.len()
            invariant
                i <= stmts@.len(),
                src@ == text,
                stub_views(s@) == stubs(text, stmts@.take(i as int)),
            decreases stmts@.len() - i,
        {
            assert(stmts@.take(i + 1).drop_last() =~= stmts@.take(i as int));
            assert(stmts@.take(i + 1).last() == stmts@[i as int]);
            match extract_allow_receive_info(src, &stmts[i]) {
                Some(x) => {
                    s.push(x);
                },
                None => {},
            }
            assert(stub_views(s@) =~= stubs(text, stmts@.take(i + 1)));
            i = i + 1;
        }
        assert(stmts@.take(stmts@.len() as int) =~= stmts@);
        let ghost v = stub_views(s@);
        let n = s.len();
        let mut k: usize = 0;
        while k < n
            invariant
                k <= n,
                n == s@.len(),
                v == stub_views(s@),
                text == source.text(),
                offenses(out@) == block_offenses(text, v, k as int),
            decreases n - k,
        {
            if reported_exec(&s, k) {
                let ghost base = offenses(out@);
                let mut m: usize = k;
                while m < n
                    invariant
                        k <= m <= n,
                        k < n,
                        n == s@.len(),
                        v == stub_views(s@),
                        text == source.text(),
                        offenses(out@) == base + group_offenses(text, v, k as int, m as int),
                    decreases n - m,
                {
                    assert(v[m as int] == s@[m as int]@);
                    assert(v[k as int] == s@[k as int]@);
                    if bytes_eq(s[m].receiver_text.as_slice(), s[k].receiver_text.as_slice()) {
                        let (line, column) = source.position(s[m].offset);
                        let ghost before = offenses(out@);
                        out.push(diagnostic(line, column, str_bytes("Use `receive_messages` instead of multiple stubs.")));
                        assert(offenses(out@) =~= before + seq![offenses(out@).last()]);
                    }
                    assert(offenses(out@) =~= base + group_offenses(text, v, k as int, m + 1));
                    m = m + 1;
                }
            }
            assert(offenses(out@) =~= block_offenses(text, v, k + 1));
            k = k + 1;
        }
        out
    }
}

/// The stubs of a reported group are reported together: a block never has
/// exactly one offense.
pub proof fn law_offenses_come_in_groups(src: Seq<u8>, s: Seq<Stub>, k: int)
    requires
        0 <= k <= s.len(),
    ensures
        block_offenses(src, s, k).len() != 1,
    decreases k,
{
    if k > 0 {
        law_offenses_come_in_groups(src, s, k - 1);
        if reported(s, k - 1) {
            let j = choose|j: int| k - 1 < j < s.len() && (#[trigger] s[j]).receiver == s[k - 1].receiver;
            lemma_group_has_two(src, s, k - 1, j, s.len() as int);
        }
    }
}

proof fn lemma_group_has_one(src: Seq<u8>, s: Seq<Stub>, i: int, m: int)
    requires
        0 <= i < m <= s.len(),
    ensures
        group_offenses(src, s, i, m).len() >= 1,
    decreases m - i,
{
    if m - 1 > i {
        lemma_group_has_one(src, s, i, m - 1);
    }
}

proof fn lemma_group_has_two(src: Seq<u8>, s: Seq<Stub>, i: int, j: int, m: int)
    requires
        0 <= i < j < m <= s.len(),
        s[j].receiver == s[i].receiver,
    ensures
        group_offenses(src, s, i, m).len() >= 2,
    decreases m - i,
{
    if m - 1 == j {
        lemma_group_has_one(src, s, i, m - 1);
    } else {
        lemma_group_has_two(src, s, i, j, m - 1);
    }
}

/// What the cop reports at a block is never a lone stub.
pub proof fn law_never_a_single_offense(src: Seq<u8>, n: Node)
    ensures
        spec_check_node(src, n).len() != 1,
{
    match block_statements(n) {
        Some(stmts) => law_offenses_come_in_groups(src, stubs(src, stmts), stubs(src, stmts).len() as int),
        None => {},
    }
}

} // verus!
