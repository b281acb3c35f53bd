//! Style/ClassMethodsDefinitions: `class << self` whose methods are all
//! public, where `def self.method` would do.
use vstd::prelude::*;
use vstd::string::StringSliceAdditionalSpecFns;
use crate::ast::{call_args_exec, is_other, is_other_exec, Node};
use crate::bytes::{bytes_eq, eq_str};
use crate::diagnostic::{diagnostic, offense, offenses, str_bytes, Diagnostic, Offense};
use crate::source::{spec_column_of, spec_line_of, SourceFile};

verus! {

/// The cop.
pub struct ClassMethodsDefinitions;

/// The `EnforcedStyle` option.
#[derive(Clone, Copy, PartialEq, Eq, Structural, Debug)]
pub enum ClassMethodsStyle {
    DefSelf,
    /// `self_class`, or any other value: nothing is reported.
    SelfClass,
}

pub open spec fn sclass_msg() -> Seq<u8> {
    "Do not define public methods within class << self.".spec_bytes()
}

pub open spec fn def_line(src: Seq<u8>, d: Node) -> int {
    spec_line_of(src, d.spec_loc().start as int)
}

pub open spec fn is_private_name(name: Seq<u8>) -> bool {
    name == "private".spec_bytes() || name == "protected".spec_bytes()
}

/// A plain method definition (no receiver) on the line `line`.
pub open spec fn is_plain_def_on(src: Seq<u8>, a: Node, line: int) -> bool {
    a matches Node::Def { receiver: None, .. } && def_line(src, a) == line
}

/// `private`/`protected` with arguments, without receiver, starting after
/// offset `start`.
pub open spec fn is_later_private_call(s: Node, start: int) -> bool {
    s matches Node::Call { receiver: None, name, arguments: Some(_), loc, .. } && loc.start > start
        && is_private_name(name@)
}

/// The symbol `:name`.
pub open spec fn names_symbol(a: Node, name: Seq<u8>) -> bool {
    a matches Node::Symbol { unescaped, .. } && unescaped@ == name
}

/// Some later statement (starting after `d`) makes the method `d` private
/// with `private :name` or `protected :name`.
pub open spec fn made_private_later(stmts: Seq<Node>, d: Node) -> bool {
    exists|k: int, j: int|
        0 <= k < stmts.len() && is_later_private_call(#[trigger] stmts[k], d.spec_loc().start as int)
            && 0 <= j < stmts[k].call_args().len() && names_symbol(#[trigger] stmts[k].call_args()[j], d->Def_name@)
}

/// The state after one statement: `None` when the body is known not to be
/// all public, else whether a public method was found and whether a bare
/// `private`/`protected` is in force.
pub open spec fn step(src: Seq<u8>, stmts: Seq<Node>, s: Node, line: int, found: bool, in_private: bool) -> Option<(bool, bool)> {
    match s {
        Node::Call { receiver: None, name, arguments: None, .. } => if is_private_name(name@) {
            Some((found, true))
        } else if name@ == "public".spec_bytes() {
            Some((found, false))
        } else {
            Some((found, in_private))
        },
        Node::Call { receiver: None, name, arguments: Some(_), .. } => {
            let args = s.call_args();
            if is_private_name(name@) {
                if exists|j: int| 0 <= j < args.len() && #[trigger] args[j] is Def {
                    None
                } else {
                    Some((found, in_private))
                }
            } else if name@ == "public".spec_bytes() {
                if exists|j: int| 0 <= j < args.len() && is_plain_def_on(src, #[trigger] args[j], line) {
                    None
                } else {
                    Some((found || exists|j: int| 0 <= j < args.len() && (#[trigger] args[j] matches Node::Def { receiver: None, .. }), in_private))
                }
            } else {
                Some((found, in_private))
            }
        },
        Node::Def { receiver: None, .. } => if def_line(src, s) == line || in_private || made_private_later(stmts, s) {
            None
        } else {
            Some((true, in_private))
        },
        _ => Some((found, in_private)),
    }
}

/// The state after the first `k` statements.
pub open spec fn scan(src: Seq<u8>, stmts: Seq<Node>, k: int, line: int) -> Option<(bool, bool)>
    decreases k,
{
    if k <= 0 {
        Some((false, false))
    } else {
        match scan(src, stmts, k - 1, line) {
            Some((found, in_private)) => step(src, stmts, stmts[k - 1], line, found, in_private),
            None => None,
        }
    }
}

/// Whether the body of `class << self` (opened on line `line`) defines
/// methods, all of them public.
pub open spec fn spec_all_defs_public(src: Seq<u8>, body: Node, line: int) -> bool {
    match body {
        Node::Statements { body: b, .. } => match scan(src, b@, b@.len() as int, line) {
            Some((found, _)) => found,
            None => false,
        },
        Node::Def { receiver: None, .. } => def_line(src, body) != line,
        _ => false,
    }
}

/// The offense at `n`.
pub open spec fn spec_check_node(src: Seq<u8>, n: Node, style: ClassMethodsStyle) -> Seq<Offense> {
    if style == ClassMethodsStyle::DefSelf && is_other(n, "SingletonClassNode".spec_bytes())
        && n->Other_children@.len() >= 2 && is_other(n->Other_children@[0], "SelfNode".spec_bytes())
        && spec_all_defs_public(src, n->Other_children@[1], spec_line_of(src, n.spec_loc().start as int)) {
        seq![offense(spec_line_of(src, n.spec_loc().start as int), spec_column_of(src, n.spec_loc().start as int), sclass_msg())]
    } else {
        Seq::empty()
    }
}

proof fn lemma_scan_stays_none(src: Seq<u8>, stmts: Seq<Node>, a: int, b: int, line: int)
    requires
        1 <= a <= b,
        scan(src, stmts, a, line) is None,
    ensures
        scan(src, stmts, b, line) is None,
    decreases b - a,
{
    if a < b {
        lemma_scan_stays_none(src, stmts, a, b - 1, line);
    }
}

fn is_private_name_exec(name: &[u8]) -> (r: bool)
    ensures
        r == is_private_name(name@),
{
    eq_str(name, "private") || eq_str(name, "protected")
}

fn made_private_later_exec(stmts: &Vec<Node>, d: &Node) -> (r: bool)
    requires
        d is Def,
    ensures
        r == made_private_later(stmts@, *d),
{
    let dname = match d {
        Node::Def { name, .. } => name,
        _ => {
            return false;
        },
    };
    let dstart = d.loc().start;
    let mut k: usize = 0;
    while k < stmts.len()
        invariant
            k <= stmts@.len(),
            *d matches Node::Def { name: m, .. } && m == *dname,
            dstart == d.spec_loc().start,
            forall|q: int, j: int| 0 <= q < k && is_later_private_call(#[trigger] stmts@[q], d.spec_loc().start as int)
                && 0 <= j < stmts@[q].call_args().len() ==> !names_symbol(#[trigger] stmts@[q].call_args()[j], d->Def_name@),
        decreases stmts@.len() - k,
    {
        let s = &stmts[k];
        match s {
            Node::Call { receiver: None, name, arguments: Some(_), loc, .. } => {
                if loc.start > dstart && is_private_name_exec(name.as_slice()) {
                    let args = call_args_exec(s);
                    let mut j: usize = 0;
                    while j < args.len()
                        invariant
                            j <= args@.len(),
                            args@ == s.call_args(),
                            k < stmts@.len(),
                            stmts@[k as int] == *s,
                            is_later_private_call(*s, d.spec_loc().start as int),
                            *d matches Node::Def { name: m, .. } && m == *dname,
                            forall|q: int| 0 <= q < j ==> !names_symbol(#[trigger] args@[q], d->Def_name@),
                        decreases args@.len() - j,
                    {
                        let hit = match &args[j] {
                            Node::Symbol { unescaped, .. } => bytes_eq(unescaped.as_slice(), dname.as_slice()),
                            _ => false,
                        };
                        if hit {
                            assert(names_symbol(stmts@[k as int].call_args()[j as int], d->Def_name@));
                            return true;
                        }
                        j = j + 1;
                    }
                }
            },
            _ => {},
        }
        k = k + 1;
    }
    false
}

fn step_exec(source: &SourceFile, stmts: &Vec<Node>, s: &Node, line: usize, found: bool, in_private: bool) -> (r: Option<(bool, bool)>)
    ensures
        r == step(source.text(), stmts@, *s, line as int, found, in_private),
{
    match s {
        Node::Call { receiver: None, name, arguments: None, .. } => {
            if is_private_name_exec(name.as_slice()) {
                Some((found, true))
            } else if eq_str(name.as_slice(), "public") {
                Some((found, false))
            } else {
                Some((found, in_private))
            }
        },
        Node::Call { receiver: None, name, arguments: Some(_), .. } => {
            let args = call_args_exec(s);
            if is_private_name_exec(name.as_slice()) {
                let mut j: usize = 0;
                while j < args.len()
                    invariant
                        j <= args@.len(),
                        args@ == s.call_args(),
                        is_private_name(name@),
                        *s matches Node::Call { receiver: None, name: nm, arguments: Some(_), .. } && nm@ == name@,
                        forall|q: int| 0 <= q < j ==> !(#[trigger] args@[q] is Def),
                    decreases args@.len() - j,
                {
                    let is_def = match &args[j] {
                        Node::Def { .. } => true,
                        _ => false,
                    };
                    if is_def {
                        assert(args@[j as int] is Def);
                        assert(s.call_args()[j as int] is Def);
                        assert(step(source.text(), stmts@, *s, line as int, found, in_private) is None);
                        return None;
                    }
                    j = j + 1;
                }
                Some((found, in_private))
            } else if eq_str(name.as_slice(), "public") {
                let mut any_plain = false;
                let mut j: usize = 0;
                while j < args.len()
                    invariant
                        j <= args@.len(),
                        args@ == s.call_args(),
                        !is_private_name(name@),
                        name@ == "public".spec_bytes(),
                        *s matches Node::Call { receiver: None, name: nm, arguments: Some(_), .. } && nm@ == name@,
                        forall|q: int| 0 <= q < j ==> !is_plain_def_on(source.text(), #[trigger] args@[q], line as int),
                        any_plain == exists|q: int| 0 <= q < j && (#[trigger] args@[q] matches Node::Def { receiver: None, .. }),
                    decreases args@.len() - j,
                {
                    match &args[j] {
                        Node::Def { receiver: None, .. } => {
                            if source.position(args[j].loc().start).0 == line {
                                assert(is_plain_def_on(source.text(), args@[j as int], line as int));
                                return None;
                            }
                            any_plain = true;
                        },
                        _ => {},
                    }
                    j = j + 1;
                }
                Some((found || any_plain, in_private))
            } else {
                Some((found, in_private))
            }
        },
        Node::Def { receiver: None, .. } => {
            if source.position(s.loc().start).0 == line || in_private || made_private_later_exec(stmts, s) {
                None
            } else {
                Some((true, in_private))
            }
        },
        _ => Some((found, in_private)),
    }
}

/// Whether the body of `class << self` opened on line `sclass_line` defines
/// methods, all of them public.
pub fn all_defs_public(source: &SourceFile, body: &Node, sclass_line: usize) -> (r: bool)
    ensures
        r == spec_all_defs_public(source.text(), *body, sclass_line as int),
{
    let stmts = match body {
        Node::Statements { body: b, .. } => b,
        Node::Def { receiver: None, .. } => {
            return source.position(body.loc().start).0 != sclass_line;
        },
        _ => {
            return false;
        },
    };
    let ghost src = source.text();
    let mut found = false;
    let mut in_private = false;
    let mut i: usize = 0;
    while i < stmts.len()
        invariant
            i <= stmts@.len(),
            src == source.text(),
            scan(src, stmts@, i as int, sclass_line as int) == Some((found, in_private)),
            *body matches Node::Statements { body: b, .. } && b@ == stmts@,
        decreases stmts@.len() - i,
    {
        match step_exec(source, stmts, &stmts[i], sclass_line, found, in_private) {
            Some((f, p)) => {
                found = f;
                in_private = p;
            },
            None => {
                proof {
                    lemma_scan_stays_none(src, stmts@, i + 1, stmts@.len() as int, sclass_line as int);
                }
                return false;
            },
        }
        i = i + 1;
    }
    found
}

impl ClassMethodsDefinitions {
    pub fn name(&self) -> &'static str {
        "Style/ClassMethodsDefinitions"
    }

    /// The offense at `node`, a `class << self` whose methods are all public.
    pub fn check_node(&self, source: &SourceFile, node: &Node, style: ClassMethodsStyle) -> (r: Vec<Diagnostic>)
        ensures
            offenses(r@) == spec_check_node(source.text(), *node, style),
    {
        let mut out: Vec<Diagnostic> = Vec::new();
        assert(offenses(out@) =~= Seq::<Offense>::empty());
        if style != ClassMethodsStyle::DefSelf {
            return out;
        }
        match node {
            Node::Other { children, loc, .. } => {
                if is_other_exec(node, "SingletonClassNode") && children.len() >= 2 && is_other_exec(&children[0], "SelfNode") {
                    let (line, column) = source.position(loc.start);
                    if all_defs_public(source, &children[1], line) {
                        out.push(diagnostic(line, column, str_bytes("Do not define public methods within class << self.")));
                        assert(offenses(out@) =~= spec_check_node(source.text(), *node, style));
                    }
                }
            },
            _ => {},
        }
        out
    }
}

} // verus!
