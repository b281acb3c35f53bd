//! Tests of the cops on Ruby source parsed by Prism.
use nitrocop::ast::{children_of, NamedKind, Node};
use nitrocop::diagnostic::Diagnostic;
use nitrocop::source::{Loc, SourceFile};
use ruby_prism::Visit;

fn loc(l: &ruby_prism::Location<'_>) -> Loc {
    Loc { start: l.start() as usize, end: l.end() as usize }
}

fn oloc(l: Option<ruby_prism::Location<'_>>) -> Option<Loc> {
    l.map(|l| loc(&l))
}

fn bx(n: &ruby_prism::Node<'_>) -> Box<Node> {
    Box::new(conv(n))
}

fn obx(n: Option<ruby_prism::Node<'_>>) -> Option<Box<Node>> {
    n.map(|n| bx(&n))
}

fn list(l: ruby_prism::NodeList<'_>) -> Vec<Node> {
    l.iter().map(|n| conv(&n)).collect()
}

fn named(kind: NamedKind, l: Loc, name: &[u8], name_loc: Loc, value: Option<Box<Node>>) -> Node {
    Node::Named { kind, loc: l, name: name.to_vec(), name_loc, value }
}

/// Collects the direct children of a node.  Children held in fields of a
/// fixed node type are visited without the generic enter hooks, so those
/// visits are caught one by one.
struct Kids<'pr> {
    depth: usize,
    root: Option<(String, usize, usize)>,
    root_entered: bool,
    kids: Vec<ruby_prism::Node<'pr>>,
}

fn signature(n: &ruby_prism::Node<'_>) -> (String, usize, usize) {
    let dbg = format!("{:?}", n);
    let name: String = dbg.chars().take_while(|c| *c != '(').collect();
    (name, n.location().start() as usize, n.location().end() as usize)
}

impl<'pr> Kids<'pr> {
    fn enter(&mut self, node: ruby_prism::Node<'pr>) {
        self.depth += 1;
        if self.depth == 1 {
            self.root = Some(signature(&node));
        } else if self.depth == 2 {
            self.kids.push(node);
        }
    }

    /// For a child visited directly: true when it is the root itself (whose
    /// children are then visited), else it is recorded at depth one.
    fn direct(&mut self, node: ruby_prism::Node<'pr>) -> bool {
        if self.depth == 1 && !self.root_entered && self.root.as_ref() == Some(&signature(&node)) {
            self.root_entered = true;
            return true;
        }
        if self.depth == 1 {
            self.kids.push(node);
        }
        false
    }
}

impl<'pr> Visit<'pr> for Kids<'pr> {
    fn visit_branch_node_enter(&mut self, node: ruby_prism::Node<'pr>) {
        self.enter(node);
    }
    fn visit_branch_node_leave(&mut self) {
        self.depth -= 1;
    }
    fn visit_leaf_node_enter(&mut self, node: ruby_prism::Node<'pr>) {
        self.enter(node);
    }
    fn visit_leaf_node_leave(&mut self) {
        self.depth -= 1;
    }
    fn visit_arguments_node(&mut self, node: &ruby_prism::ArgumentsNode<'pr>) {
        if self.direct(node.as_node()) {
            ruby_prism::visit_arguments_node(self, node);
        }
    }
    fn visit_block_argument_node(&mut self, node: &ruby_prism::BlockArgumentNode<'pr>) {
        if self.direct(node.as_node()) {
            ruby_prism::visit_block_argument_node(self, node);
        }
    }
    fn visit_block_node(&mut self, node: &ruby_prism::BlockNode<'pr>) {
        if self.direct(node.as_node()) {
            ruby_prism::visit_block_node(self, node);
        }
    }
    fn visit_call_node(&mut self, node: &ruby_prism::CallNode<'pr>) {
        if self.direct(node.as_node()) {
            ruby_prism::visit_call_node(self, node);
        }
    }
    fn visit_constant_path_node(&mut self, node: &ruby_prism::ConstantPathNode<'pr>) {
        if self.direct(node.as_node()) {
            ruby_prism::visit_constant_path_node(self, node);
        }
    }
    fn visit_else_node(&mut self, node: &ruby_prism::ElseNode<'pr>) {
        if self.direct(node.as_node()) {
            ruby_prism::visit_else_node(self, node);
        }
    }
    fn visit_ensure_node(&mut self, node: &ruby_prism::EnsureNode<'pr>) {
        if self.direct(node.as_node()) {
            ruby_prism::visit_ensure_node(self, node);
        }
    }
    fn visit_local_variable_target_node(&mut self, node: &ruby_prism::LocalVariableTargetNode<'pr>) {
        if self.direct(node.as_node()) {
            ruby_prism::visit_local_variable_target_node(self, node);
        }
    }
    fn visit_parameters_node(&mut self, node: &ruby_prism::ParametersNode<'pr>) {
        if self.direct(node.as_node()) {
            ruby_prism::visit_parameters_node(self, node);
        }
    }
    fn visit_rescue_node(&mut self, node: &ruby_prism::RescueNode<'pr>) {
        if self.direct(node.as_node()) {
            ruby_prism::visit_rescue_node(self, node);
        }
    }
    fn visit_splat_node(&mut self, node: &ruby_prism::SplatNode<'pr>) {
        if self.direct(node.as_node()) {
            ruby_prism::visit_splat_node(self, node);
        }
    }
    fn visit_statements_node(&mut self, node: &ruby_prism::StatementsNode<'pr>) {
        if self.direct(node.as_node()) {
            ruby_prism::visit_statements_node(self, node);
        }
    }
}

fn other(n: &ruby_prism::Node<'_>) -> Node {
    let (name, _, _) = signature(n);
    let mut k = Kids { depth: 0, root: None, root_entered: false, kids: Vec::new() };
    k.visit(n);
    Node::Other {
        node_type: name.into_bytes(),
        loc: loc(&n.location()),
        children: k.kids.iter().map(conv).collect(),
    }
}

fn conv(n: &ruby_prism::Node<'_>) -> Node {
    let l = loc(&n.location());
    if let Some(p) = n.as_program_node() {
        return Node::Program { loc: l, statements: bx(&p.statements().as_node()) };
    }
    if let Some(s) = n.as_statements_node() {
        return Node::Statements { loc: l, body: list(s.body()) };
    }
    if let Some(a) = n.as_arguments_node() {
        return Node::Arguments { loc: l, arguments: list(a.arguments()) };
    }
    if let Some(c) = n.as_call_node() {
        return Node::Call {
            loc: l,
            receiver: obx(c.receiver()),
            call_operator_loc: oloc(c.call_operator_loc()),
            name: c.name().as_slice().to_vec(),
            message_loc: oloc(c.message_loc()),
            opening_loc: oloc(c.opening_loc()),
            arguments: c.arguments().map(|a| bx(&a.as_node())),
            closing_loc: oloc(c.closing_loc()),
            block: obx(c.block()),
        };
    }
    if let Some(b) = n.as_block_node() {
        return Node::Block {
            loc: l,
            parameters: obx(b.parameters()),
            body: obx(b.body()),
            opening_loc: loc(&b.opening_loc()),
            closing_loc: loc(&b.closing_loc()),
        };
    }
    if let Some(b) = n.as_block_argument_node() {
        return Node::BlockArgument { loc: l, expression: obx(b.expression()) };
    }
    if let Some(b) = n.as_block_parameters_node() {
        return Node::BlockParameters {
            loc: l,
            parameters: b.parameters().map(|p| bx(&p.as_node())),
            locals: list(b.locals()),
            opening_loc: oloc(b.opening_loc()),
            closing_loc: oloc(b.closing_loc()),
        };
    }
    if let Some(p) = n.as_parameters_node() {
        return Node::Parameters {
            loc: l,
            requireds: list(p.requireds()),
            optionals: list(p.optionals()),
            rest: obx(p.rest()),
            posts: list(p.posts()),
            keywords: list(p.keywords()),
            keyword_rest: obx(p.keyword_rest()),
            block: obx(p.block()),
        };
    }
    if let Some(i) = n.as_if_node() {
        return Node::If {
            loc: l,
            if_keyword_loc: oloc(i.if_keyword_loc()),
            predicate: bx(&i.predicate()),
            then_keyword_loc: oloc(i.then_keyword_loc()),
            statements: i.statements().map(|s| bx(&s.as_node())),
            subsequent: obx(i.subsequent()),
            end_keyword_loc: oloc(i.end_keyword_loc()),
        };
    }
    if let Some(u) = n.as_unless_node() {
        return Node::Unless {
            loc: l,
            keyword_loc: loc(&u.unless_keyword_loc()),
            predicate: bx(&u.predicate()),
            then_keyword_loc: oloc(u.then_keyword_loc()),
            statements: u.statements().map(|s| bx(&s.as_node())),
            else_clause: u.else_clause().map(|e| bx(&e.as_node())),
            end_keyword_loc: oloc(u.end_keyword_loc()),
        };
    }
    if let Some(e) = n.as_else_node() {
        return Node::Else {
            loc: l,
            else_keyword_loc: loc(&e.else_keyword_loc()),
            statements: e.statements().map(|s| bx(&s.as_node())),
            end_keyword_loc: oloc(e.end_keyword_loc()),
        };
    }
    if let Some(s) = n.as_string_node() {
        return Node::Str {
            loc: l,
            opening_loc: oloc(s.opening_loc()),
            closing_loc: oloc(s.closing_loc()),
            unescaped: s.unescaped().to_vec(),
        };
    }
    if let Some(s) = n.as_interpolated_string_node() {
        return Node::InterpolatedStr {
            loc: l,
            opening_loc: oloc(s.opening_loc()),
            parts: list(s.parts()),
            closing_loc: oloc(s.closing_loc()),
        };
    }
    if let Some(s) = n.as_symbol_node() {
        return Node::Symbol {
            loc: l,
            opening_loc: oloc(s.opening_loc()),
            unescaped: s.unescaped().to_vec(),
        };
    }
    if let Some(s) = n.as_x_string_node() {
        return Node::XStr { loc: l, opening_loc: loc(&s.opening_loc()), unescaped: s.unescaped().to_vec() };
    }
    if let Some(s) = n.as_interpolated_x_string_node() {
        return Node::InterpolatedXStr { loc: l, opening_loc: loc(&s.opening_loc()), parts: list(s.parts()) };
    }
    if n.as_integer_node().is_some() {
        return Node::Integer { loc: l };
    }
    if n.as_float_node().is_some() {
        return Node::Float { loc: l };
    }
    if let Some(r) = n.as_regular_expression_node() {
        return Node::RegularExpression {
            loc: l,
            closing_loc: loc(&r.closing_loc()),
            unescaped: r.unescaped().to_vec(),
        };
    }
    if let Some(c) = n.as_constant_path_node() {
        return Node::ConstantPath {
            loc: l,
            parent: obx(c.parent()),
            name: c.name().map(|n| n.as_slice().to_vec()).unwrap_or_default(),
        };
    }
    if let Some(d) = n.as_def_node() {
        return Node::Def {
            loc: l,
            name: d.name().as_slice().to_vec(),
            receiver: obx(d.receiver()),
            parameters: d.parameters().map(|p| bx(&p.as_node())),
            body: obx(d.body()),
            equal_loc: oloc(d.equal_loc()),
        };
    }
    if let Some(r) = n.as_range_node() {
        return Node::Range {
            loc: l,
            left: obx(r.left()),
            right: obx(r.right()),
            operator_loc: loc(&r.operator_loc()),
        };
    }
    if let Some(h) = n.as_hash_node() {
        return Node::Hash { loc: l, elements: list(h.elements()) };
    }
    if let Some(h) = n.as_keyword_hash_node() {
        return Node::KeywordHash { loc: l, elements: list(h.elements()) };
    }
    if let Some(a) = n.as_assoc_node() {
        return Node::Assoc {
            loc: l,
            key: bx(&a.key()),
            value: bx(&a.value()),
            operator_loc: oloc(a.operator_loc()),
        };
    }
    if let Some(i) = n.as_implicit_node() {
        return Node::Implicit { loc: l, value: bx(&i.value()) };
    }
    if let Some(a) = n.as_array_node() {
        return Node::Array { loc: l, elements: list(a.elements()), opening_loc: oloc(a.opening_loc()) };
    }
    if let Some(f) = n.as_for_node() {
        return Node::For {
            loc: l,
            index: bx(&f.index()),
            collection: bx(&f.collection()),
            statements: f.statements().map(|s| bx(&s.as_node())),
        };
    }
    if let Some(p) = n.as_post_execution_node() {
        return Node::PostExecution {
            loc: l,
            statements: p.statements().map(|s| bx(&s.as_node())),
            keyword_loc: loc(&p.keyword_loc()),
        };
    }
    if let Some(x) = n.as_constant_read_node() {
        return named(NamedKind::ConstantRead, l, x.name().as_slice(), l, None);
    }
    if let Some(x) = n.as_constant_write_node() {
        return named(NamedKind::ConstantWrite, l, x.name().as_slice(), loc(&x.name_loc()), Some(bx(&x.value())));
    }
    if let Some(x) = n.as_constant_target_node() {
        return named(NamedKind::ConstantTarget, l, x.name().as_slice(), l, None);
    }
    if let Some(x) = n.as_local_variable_read_node() {
        return named(NamedKind::LocalVariableRead, l, x.name().as_slice(), l, None);
    }
    if let Some(x) = n.as_local_variable_write_node() {
        return named(NamedKind::LocalVariableWrite, l, x.name().as_slice(), loc(&x.name_loc()), Some(bx(&x.value())));
    }
    if let Some(x) = n.as_local_variable_target_node() {
        return named(NamedKind::LocalVariableTarget, l, x.name().as_slice(), l, None);
    }
    if let Some(x) = n.as_instance_variable_read_node() {
        return named(NamedKind::InstanceVariableRead, l, x.name().as_slice(), l, None);
    }
    if let Some(x) = n.as_instance_variable_write_node() {
        return named(NamedKind::InstanceVariableWrite, l, x.name().as_slice(), loc(&x.name_loc()), Some(bx(&x.value())));
    }
    if let Some(x) = n.as_instance_variable_target_node() {
        return named(NamedKind::InstanceVariableTarget, l, x.name().as_slice(), l, None);
    }
    if let Some(x) = n.as_class_variable_read_node() {
        return named(NamedKind::ClassVariableRead, l, x.name().as_slice(), l, None);
    }
    if let Some(x) = n.as_class_variable_write_node() {
        return named(NamedKind::ClassVariableWrite, l, x.name().as_slice(), loc(&x.name_loc()), Some(bx(&x.value())));
    }
    if let Some(x) = n.as_class_variable_target_node() {
        return named(NamedKind::ClassVariableTarget, l, x.name().as_slice(), l, None);
    }
    if let Some(x) = n.as_class_variable_and_write_node() {
        return named(NamedKind::ClassVariableAndWrite, l, x.name().as_slice(), loc(&x.name_loc()), Some(bx(&x.value())));
    }
    if let Some(x) = n.as_class_variable_or_write_node() {
        return named(NamedKind::ClassVariableOrWrite, l, x.name().as_slice(), loc(&x.name_loc()), Some(bx(&x.value())));
    }
    if let Some(x) = n.as_class_variable_operator_write_node() {
        return named(NamedKind::ClassVariableOperatorWrite, l, x.name().as_slice(), loc(&x.name_loc()), Some(bx(&x.value())));
    }
    if let Some(x) = n.as_global_variable_read_node() {
        return named(NamedKind::GlobalVariableRead, l, x.name().as_slice(), l, None);
    }
    if let Some(x) = n.as_global_variable_write_node() {
        return named(NamedKind::GlobalVariableWrite, l, x.name().as_slice(), loc(&x.name_loc()), Some(bx(&x.value())));
    }
    if let Some(x) = n.as_global_variable_target_node() {
        return named(NamedKind::GlobalVariableTarget, l, x.name().as_slice(), l, None);
    }
    if let Some(x) = n.as_required_parameter_node() {
        return named(NamedKind::RequiredParameter, l, x.name().as_slice(), l, None);
    }
    if let Some(x) = n.as_optional_parameter_node() {
        return named(NamedKind::OptionalParameter, l, x.name().as_slice(), loc(&x.name_loc()), Some(bx(&x.value())));
    }
    if let Some(x) = n.as_rest_parameter_node() {
        let nm = x.name().map(|c| c.as_slice().to_vec()).unwrap_or_default();
        return named(NamedKind::RestParameter, l, &nm, oloc(x.name_loc()).unwrap_or(l), None);
    }
    if let Some(x) = n.as_keyword_rest_parameter_node() {
        let nm = x.name().map(|c| c.as_slice().to_vec()).unwrap_or_default();
        return named(NamedKind::KeywordRestParameter, l, &nm, oloc(x.name_loc()).unwrap_or(l), None);
    }
    if let Some(x) = n.as_block_parameter_node() {
        let nm = x.name().map(|c| c.as_slice().to_vec()).unwrap_or_default();
        return named(NamedKind::BlockParameter, l, &nm, oloc(x.name_loc()).unwrap_or(l), None);
    }
    if let Some(x) = n.as_required_keyword_parameter_node() {
        return named(NamedKind::RequiredKeywordParameter, l, x.name().as_slice(), loc(&x.name_loc()), None);
    }
    if let Some(x) = n.as_optional_keyword_parameter_node() {
        return named(NamedKind::OptionalKeywordParameter, l, x.name().as_slice(), loc(&x.name_loc()), Some(bx(&x.value())));
    }
    if let Some(x) = n.as_block_local_variable_node() {
        return named(NamedKind::BlockLocalVariable, l, x.name().as_slice(), l, None);
    }
    other(n)
}

/// Parses `src` and converts the tree.
fn parse(src: &[u8]) -> (SourceFile, Node) {
    let result = ruby_prism::parse(src);
    let root = conv(&result.node());
    (SourceFile::new(src.to_vec()), root)
}

/// Every node of the tree, in pre-order.
fn all_nodes(root: &Node) -> Vec<&Node> {
    let mut out = Vec::new();
    let mut stack = vec![root];
    while let Some(n) = stack.pop() {
        out.push(n);
        let mut kids = children_of(n);
        kids.reverse();
        stack.extend(kids);
    }
    out
}

/// Runs a per-node check over every node of the parsed source.
fn run_nodes(src: &[u8], check: impl Fn(&SourceFile, &Node) -> Vec<Diagnostic>) -> Vec<Diagnostic> {
    let (source, root) = parse(src);
    let mut out = Vec::new();
    for n in all_nodes(&root) {
        out.extend(check(&source, n));
    }
    out
}

fn messages(d: &[Diagnostic]) -> Vec<String> {
    d.iter().map(|d| format!("{}:{}: {}", d.line, d.column, String::from_utf8_lossy(&d.message))).collect()
}

// ---------------------------------------------------------------------------
// RSpec/RepeatedExampleGroupBody

use nitrocop::cop::rspec::repeated_example_group_body::RepeatedExampleGroupBody;

fn repeated_group_bodies(src: &[u8]) -> Vec<Diagnostic> {
    run_nodes(src, |s, n| RepeatedExampleGroupBody.check_node(s, n))
}

#[test]
fn detects_identical_bodies_with_different_string_quoting() {
    let source = br#"
describe 'case a' do
  it { expect(subject).to eq('hello') }
end

describe 'case b' do
  it { expect(subject).to eq("hello") }
end
"#;
    let diags = repeated_group_bodies(source);
    assert_eq!(diags.len(), 2, "Expected 2 offenses for identical bodies with different quoting, got: {:?}", messages(&diags));
}

#[test]
fn detects_identical_bodies_with_optional_parens() {
    let source = b"
describe 'case a' do
  it { expect(subject).to eq(1) }
end

describe 'case b' do
  it { expect(subject).to eq 1 }
end
";
    let diags = repeated_group_bodies(source);
    assert_eq!(diags.len(), 2, "Expected 2 offenses for identical bodies with different parens, got: {:?}", messages(&diags));
}

#[test]
fn skip_with_args_excluded() {
    let source = b"
describe '#load' do
  skip 'storage feature needed'
end

describe '#save' do
  skip 'storage feature needed'
end
";
    let diags = repeated_group_bodies(source);
    assert_eq!(diags.len(), 0, "skip with args should be excluded: {:?}", messages(&diags));
}

#[test]
fn pending_with_args_excluded() {
    let source = b"
describe '#get_foo' do
  pending 'foo feature is broken'
end

describe '#set_foo' do
  pending 'foo feature is broken'
end
";
    let diags = repeated_group_bodies(source);
    assert_eq!(diags.len(), 0, "pending with args should be excluded: {:?}", messages(&diags));
}

#[test]
fn skip_with_block_not_excluded() {
    let source = b"
describe '#load' do
  skip { cool_predicate_method }
end

describe '#save' do
  skip { cool_predicate_method }
end
";
    let diags = repeated_group_bodies(source);
    assert_eq!(diags.len(), 2, "skip with block should NOT be excluded: {:?}", messages(&diags));
}

#[test]
fn cross_group_type_detection() {
    let source = b"
describe 'doing x' do
  it { cool_predicate_method }
end

context 'when a is true' do
  it { cool_predicate_method }
end
";
    let diags = repeated_group_bodies(source);
    assert_eq!(diags.len(), 2, "describe and context with same body should match: {:?}", messages(&diags));
}

#[test]
fn different_metadata_no_offense() {
    let source = b"
describe 'doing x' do
  it { cool_predicate_method }
end

describe 'doing x', :request do
  it { cool_predicate_method }
end
";
    let diags = repeated_group_bodies(source);
    assert_eq!(diags.len(), 0, "different metadata should not match: {:?}", messages(&diags));
}

#[test]
fn different_const_arg_no_offense() {
    let source = b"
describe CSV::Row do
  it { is_expected.to respond_to :headers }
end

describe CSV::Table do
  it { is_expected.to respond_to :headers }
end
";
    let diags = repeated_group_bodies(source);
    assert_eq!(diags.len(), 0, "different const args should not match: {:?}", messages(&diags));
}

#[test]
fn same_const_arg_offense() {
    let source = b"
context Net::HTTP do
  it { expect(described_class).to respond_to :start }
end

context Net::HTTP do
  it { expect(described_class).to respond_to :start }
end
";
    let diags = repeated_group_bodies(source);
    assert_eq!(diags.len(), 2, "same const args with same body should match: {:?}", messages(&diags));
}

#[test]
fn different_scopes_no_offense() {
    let source = b"
describe 'A' do
  describe '.b' do
    context 'when this' do
      it { do_something }
    end
  end
  context 'when this' do
    it { do_something }
  end
end
";
    let diags = repeated_group_bodies(source);
    assert_eq!(diags.len(), 0, "groups at different nesting levels should not match: {:?}", messages(&diags));
}

#[test]
fn separated_by_non_group_siblings() {
    let source = b"
describe 'repeated' do
  it { is_expected.to be_truthy }
end

before { do_something }

describe 'this is repeated' do
  it { is_expected.to be_truthy }
end
";
    let diags = repeated_group_bodies(source);
    assert_eq!(diags.len(), 2, "groups separated by non-group code should still match: {:?}", messages(&diags));
}

#[test]
fn no_descriptions_same_body() {
    let source = b"
context do
  let(:preferences) { %w[a] }

  it { is_expected.to eq true }
end

context do
  let(:preferences) { %w[a] }

  it { is_expected.to eq true }
end
";
    let diags = repeated_group_bodies(source);
    assert_eq!(diags.len(), 2, "context without descriptions but same body should match: {:?}", messages(&diags));
}

#[test]
fn rspec_prefix_mixed_with_bare() {
    let source = b"
RSpec.describe 'doing x' do
  it { cool_predicate_method }
end

context 'when a is true' do
  it { cool_predicate_method }
end
";
    let diags = repeated_group_bodies(source);
    assert_eq!(diags.len(), 2, "RSpec.describe and bare context with same body should match: {:?}", messages(&diags));
}

#[test]
fn helpers_describe_excluded() {
    let source = b"
helpers.describe 'doing x' do
  it { cool_predicate_method }
end

RSpec.describe 'doing x' do
  it { cool_predicate_method }
end

context 'when a is true' do
  it { cool_predicate_method }
end
";
    let diags = repeated_group_bodies(source);
    assert_eq!(
        diags.len(),
        2,
        "helpers.describe should be excluded, RSpec.describe and context should match: {:?}",
        messages(&diags)
    );
}

#[test]
fn nested_repeated_groups() {
    let source = b"
RSpec.describe 'A' do
  stub_all_http_calls()
  before { create(:admin) }

  describe '#load' do
    it { cool_predicate_method }
  end

  describe '#load' do
    it { cool_predicate_method }
  end
end
";
    let diags = repeated_group_bodies(source);
    assert_eq!(diags.len(), 2, "nested repeated groups should match: {:?}", messages(&diags));
}

#[test]
fn groups_inside_non_example_group_block() {
    let source = b"
control 'test-01' do
  describe 'first check' do
    it { should eq 0 }
  end
  describe 'second check' do
    it { should eq 0 }
  end
end
";
    let diags = repeated_group_bodies(source);
    assert_eq!(diags.len(), 2, "describe blocks inside non-example-group block should be compared: {:?}", messages(&diags));
}

#[test]
fn range_operator_difference_not_flagged() {
    let source = b"
describe 'included' do
  before { @range = 1..99 }
  it { @range.should include 50 }
end

describe 'excluded' do
  before { @range = 1...99 }
  it { @range.should include 50 }
end
";
    let diags = repeated_group_bodies(source);
    assert_eq!(diags.len(), 0, "bodies with .. vs ... ranges should not match: {:?}", messages(&diags));
}

#[test]
fn xstring_content_difference_not_flagged() {
    let source = b"
context 'case a' do
  before { `echo hello` }
  it { should be_truthy }
end

context 'case b' do
  before { `echo world` }
  it { should be_truthy }
end
";
    let diags = repeated_group_bodies(source);
    assert_eq!(diags.len(), 0, "bodies with different backtick strings should not match: {:?}", messages(&diags));
}

#[test]
fn detects_identical_bodies_with_comments_diff() {
    let source = b"
describe 'case a' do
  # this is a comment
  it { do_something }
end

describe 'case b' do
  it { do_something }
end
";
    let diags = repeated_group_bodies(source);
    assert_eq!(diags.len(), 2, "Expected 2 offenses for bodies differing only in comments, got: {:?}", messages(&diags));
}

#[test]
fn repeated_group_message_names_other_lines() {
    let source = b"describe 'a' do\n  it { x }\nend\ncontext 'b' do\n  it { x }\nend\nfeature 'c' do\n  it { x }\nend\n";
    let diags = repeated_group_bodies(source);
    let got = messages(&diags);
    assert_eq!(
        got,
        vec![
            "1:0: Repeated describe block body on line(s) [4, 7]".to_string(),
            "4:0: Repeated context block body on line(s) [1, 7]".to_string(),
            "7:0: Repeated eature block body on line(s) [1, 4]".to_string(),
        ]
    );
}

// ---------------------------------------------------------------------------
// Style/EmptyLiteral

use nitrocop::cop::style::empty_literal::EmptyLiteral;

fn empty_literal(src: &[u8]) -> Vec<Diagnostic> {
    let (source, root) = parse(src);
    let mut out = Vec::new();
    for n in all_nodes(&root) {
        out.extend(EmptyLiteral.check_node(&source, &root, n));
    }
    out
}

#[test]
fn no_offense_string_new_with_frozen_string_literal() {
    let diags = empty_literal(b"# frozen_string_literal: true\n\ns = String.new\n");
    assert!(diags.is_empty(), "String.new should not be flagged when frozen_string_literal is true");
}

#[test]
fn no_offense_string_new_without_frozen_string_literal() {
    let diags = empty_literal(b"s = String.new\n");
    assert!(diags.is_empty(), "String.new should not be flagged when frozen_string_literal comment is absent");
}

#[test]
fn offense_string_new_with_frozen_string_literal_false() {
    let diags = empty_literal(b"# frozen_string_literal: false\n\ns = String.new\n");
    assert!(!diags.is_empty(), "String.new should be flagged when frozen_string_literal is false");
}

#[test]
fn empty_literal_array_and_hash_constructors() {
    let diags = empty_literal(b"a = Array.new\nh = Hash.new\nx = Array.new(3)\n");
    assert_eq!(messages(&diags), vec![
        "1:4: Use array literal `[]` instead of `Array.new`.".to_string(),
        "2:4: Use hash literal `{}` instead of `Hash.new`.".to_string(),
    ]);
}

// ---------------------------------------------------------------------------
// Style/HashSyntax

use nitrocop::cop::style::hash_syntax::{HashStyle, HashSyntax, HashSyntaxConfig, ShorthandStyle};

fn hash_default() -> HashSyntaxConfig {
    HashSyntaxConfig {
        enforced_style: HashStyle::Ruby19,
        enforced_shorthand: ShorthandStyle::Either,
        use_hash_rockets_with_symbol_values: false,
        prefer_hash_rockets_for_non_alnum_ending_symbols: false,
    }
}

fn hash_syntax(src: &[u8], cfg: HashSyntaxConfig) -> Vec<Diagnostic> {
    run_nodes(src, |s, n| HashSyntax.check_node(s, n, cfg).0)
}

#[test]
fn config_hash_rockets() {
    let cfg = HashSyntaxConfig { enforced_style: HashStyle::HashRockets, ..hash_default() };
    let diags = hash_syntax(b"{ a: 1 }\n", cfg);
    assert_eq!(diags.len(), 1);
    assert!(String::from_utf8_lossy(&diags[0].message).contains("hash rockets"));
}

#[test]
fn mixed_key_types_skipped_in_ruby19() {
    let diags = hash_syntax(b"{ \"@type\" => \"Person\", :name => \"foo\" }\n", hash_default());
    assert!(diags.is_empty(), "Mixed key hash should not be flagged");
}

#[test]
fn use_hash_rockets_with_symbol_values() {
    let cfg = HashSyntaxConfig { use_hash_rockets_with_symbol_values: true, ..hash_default() };
    let diags = hash_syntax(b"{ :foo => :bar }\n", cfg);
    assert!(diags.is_empty(), "Should allow rockets when value is a symbol");
}

#[test]
fn shorthand_never_flags_omission() {
    let cfg = HashSyntaxConfig { enforced_shorthand: ShorthandStyle::Never, ..hash_default() };
    let diags = hash_syntax(b"x = 1; {x:}\n", cfg);
    assert!(
        diags.iter().any(|d| String::from_utf8_lossy(&d.message).contains("Include the hash value")),
        "Should flag shorthand with EnforcedShorthandSyntax: never"
    );
}

#[test]
fn shorthand_either_allows_all() {
    let diags = hash_syntax(b"x = 1; {x:}\n", hash_default());
    assert!(
        !diags.iter().any(|d| String::from_utf8_lossy(&d.message).contains("hash value")),
        "Default 'either' should not flag shorthand"
    );
}

#[test]
fn prefer_rockets_for_nonalnum_ending_symbols() {
    let cfg = HashSyntaxConfig { prefer_hash_rockets_for_non_alnum_ending_symbols: true, ..hash_default() };
    let diags = hash_syntax(b"{ :production? => false }\n", cfg);
    assert!(diags.is_empty(), "Should allow rockets for non-alnum ending symbols");
}

#[test]
fn ruby19_flags_rocket_and_corrects() {
    let (source, root) = parse(b"{ :a => 1 }\n");
    let mut diags = Vec::new();
    let mut fixes = Vec::new();
    for n in all_nodes(&root) {
        let (d, f) = HashSyntax.check_node(&source, n, hash_default());
        diags.extend(d);
        fixes.extend(f);
    }
    assert_eq!(messages(&diags), vec!["1:2: Use the new Ruby 1.9 hash syntax.".to_string()]);
    assert_eq!(fixes.len(), 1);
    assert_eq!(String::from_utf8_lossy(&fixes[0].replacement), "a:");
    assert_eq!((fixes[0].start, fixes[0].end), (2, 7));
}

// ---------------------------------------------------------------------------
// Style/IfWithSemicolon

use nitrocop::cop::style::if_with_semicolon::IfWithSemicolon;

fn if_with_semicolon(src: &[u8]) -> Vec<Diagnostic> {
    let (source, root) = parse(src);
    IfWithSemicolon.check_source(&source, &root)
}

#[test]
fn single_line_if_semicolon() {
    let diags = if_with_semicolon(b"if foo; bar end\n");
    assert_eq!(diags.len(), 1, "Should flag 'if foo; bar end'");
}

#[test]
fn multiline_unless_semicolon() {
    let diags = if_with_semicolon(b"unless done;\n  process\nend\n");
    assert_eq!(diags.len(), 1, "Should flag 'unless done;'");
}

#[test]
fn nested_if_with_semicolon_suppressed() {
    let diags = if_with_semicolon(b"if is_real?;\n  if @re>=0; return foo\n  else return bar\n  end\nend\n");
    assert_eq!(diags.len(), 1, "Should only flag outer 'if is_real?;', not nested 'if @re>=0;'");
}

#[test]
fn nested_if_inside_elsif_suppressed() {
    let diags = if_with_semicolon(b"if a; foo\nelsif b;\n  if c; bar\n  elsif d; baz\n  end\nend\n");
    assert_eq!(diags.len(), 1, "Should only flag outer 'if a;', nested ifs inside are suppressed");
}

#[test]
fn sibling_ifs_both_flagged() {
    let diags = if_with_semicolon(b"if a; foo end\nif b; bar end\n");
    assert_eq!(diags.len(), 2, "Both sequential ifs should be flagged");
}

// ---------------------------------------------------------------------------
// Shared helpers for the checks below

use nitrocop::diagnostic::Correction;

/// Applies non-overlapping corrections to `src`.
fn apply(src: &[u8], fixes: &[Correction]) -> Vec<u8> {
    let mut sorted: Vec<&Correction> = fixes.iter().collect();
    sorted.sort_by_key(|c| (c.start, c.end));
    let mut out = Vec::new();
    let mut at = 0;
    for c in sorted {
        out.extend_from_slice(&src[at..c.start]);
        out.extend_from_slice(&c.replacement);
        at = c.end;
    }
    out.extend_from_slice(&src[at..]);
    out
}

/// Parses `src`, keeping the comment locations too.
fn parse_with_comments(src: &[u8]) -> (SourceFile, Node, Vec<Loc>) {
    let result = ruby_prism::parse(src);
    let root = conv(&result.node());
    let comments = result.comments().map(|c| loc(&c.location())).collect();
    (SourceFile::new(src.to_vec()), root, comments)
}

/// Runs a per-node check that also corrects over every node.
fn run_nodes_fix(
    src: &[u8],
    check: impl Fn(&SourceFile, &Node) -> (Vec<Diagnostic>, Vec<Correction>),
) -> (Vec<Diagnostic>, Vec<Correction>) {
    let (source, root) = parse(src);
    let mut out = Vec::new();
    let mut fixes = Vec::new();
    for n in all_nodes(&root) {
        let (d, c) = check(&source, n);
        out.extend(d);
        fixes.extend(c);
    }
    (out, fixes)
}

// ---------------------------------------------------------------------------
// RSpec/ContextWording

use nitrocop::cop::rspec::context_wording::{default_prefixes, ContextWording};

fn context_wording(src: &[u8], patterns: Vec<Vec<u8>>) -> Vec<Diagnostic> {
    let prefixes = default_prefixes();
    run_nodes(src, |s, n| ContextWording.check_node(s, n, &prefixes, &patterns))
}

#[test]
fn allowed_patterns_skips_matching_description() {
    let diags = context_wording(b"context 'if the user is logged in' do\nend\n", vec![b"^if ".to_vec()]);
    assert!(diags.is_empty(), "AllowedPatterns should skip matching descriptions");
}

#[test]
fn allowed_patterns_does_not_skip_non_matching() {
    let diags = context_wording(b"context 'the user is logged in' do\nend\n", vec![b"^if ".to_vec()]);
    assert_eq!(diags.len(), 1);
}

#[test]
fn context_wording_message_lists_prefixes() {
    let diags = context_wording(b"context 'the user' do\nend\ncontext 'when ready' do\nend\n", Vec::new());
    assert_eq!(
        messages(&diags),
        vec!["1:8: Context description should match /^when\\b/, /^with\\b/, /^without\\b/.".to_string()]
    );
}

#[test]
fn context_wording_needs_a_block_and_word_boundary() {
    assert!(context_wording(b"context 'the user'\n", Vec::new()).is_empty());
    assert_eq!(context_wording(b"context 'whenever' do\nend\n", Vec::new()).len(), 1);
    assert!(context_wording(b"RSpec.context 'with x' do\nend\n", Vec::new()).is_empty());
}

// ---------------------------------------------------------------------------
// RSpec/ImplicitSubject

use nitrocop::cop::rspec::implicit_subject::{ImplicitSubject, ImplicitSubjectStyle};

fn implicit_subject(src: &[u8], style: ImplicitSubjectStyle) -> Vec<Diagnostic> {
    run_nodes(src, |s, n| ImplicitSubject.check_node(s, n, style))
}

#[test]
fn disallow_style_flags_single_line_too() {
    let diags = implicit_subject(b"it { is_expected.to eq(1) }\n", ImplicitSubjectStyle::Disallow);
    assert_eq!(diags.len(), 1);
    assert!(String::from_utf8_lossy(&diags[0].message).contains("Don't use implicit subject"));
}

#[test]
fn disallow_style_allows_its_blocks() {
    let diags = implicit_subject(b"its(:quality) { is_expected.to be :high }\n", ImplicitSubjectStyle::Disallow);
    assert_eq!(diags.len(), 0, "its blocks should be exempt even with disallow style");
}

#[test]
fn single_statement_only_allows_single_statement() {
    let diags = implicit_subject(b"it 'checks' do\n  is_expected.to be_good\nend\n", ImplicitSubjectStyle::SingleStatementOnly);
    assert_eq!(diags.len(), 0, "single-statement multi-line should be allowed");
}

#[test]
fn single_statement_only_flags_multi_statement() {
    let diags = implicit_subject(
        b"it 'checks' do\n  subject.age = 18\n  is_expected.to be_valid\nend\n",
        ImplicitSubjectStyle::SingleStatementOnly,
    );
    assert_eq!(diags.len(), 1, "multi-statement should be flagged");
}

// ---------------------------------------------------------------------------
// RSpec/MessageExpectation

use nitrocop::cop::rspec::message_expectation::{MessageExpectation, MessageExpectationStyle};

fn message_expectation(src: &[u8], style: MessageExpectationStyle) -> Vec<Diagnostic> {
    run_nodes(src, |s, n| MessageExpectation.check_node(s, n, style))
}

#[test]
fn expect_style_flags_allow_receive() {
    let diags = message_expectation(b"allow(foo).to receive(:bar)\n", MessageExpectationStyle::Expect);
    assert_eq!(diags.len(), 1);
    assert!(String::from_utf8_lossy(&diags[0].message).contains("expect"));
}

#[test]
fn expect_style_does_not_flag_expect_receive() {
    let diags = message_expectation(b"expect(foo).to receive(:bar)\n", MessageExpectationStyle::Expect);
    assert!(diags.is_empty());
}

#[test]
fn allow_style_flags_expect_receive_chain() {
    let diags = message_expectation(b"expect(foo).to receive(:bar).with(1)\n", MessageExpectationStyle::Allow);
    assert_eq!(messages(&diags), vec!["1:0: Prefer `allow` for setting message expectations.".to_string()]);
    assert!(message_expectation(b"expect(foo).to eq(1)\n", MessageExpectationStyle::Allow).is_empty());
}

// ---------------------------------------------------------------------------
// Style/AmbiguousEndlessMethodDefinition

use nitrocop::cop::style::ambiguous_endless_method_definition::AmbiguousEndlessMethodDefinition;

fn ambiguous_endless(src: &[u8], version: u32) -> Vec<Diagnostic> {
    AmbiguousEndlessMethodDefinition.check_lines(&SourceFile::new(src.to_vec()), version)
}

const ENDLESS_OFFENSES: &[u8] = b"def foo = true and bar\ndef baz = x or y\n  def qux = do_it if ready?\n";

#[test]
fn offense_with_ruby30() {
    assert_eq!(
        messages(&ambiguous_endless(ENDLESS_OFFENSES, 300)),
        vec![
            "1:0: Avoid using `and` statements with endless methods.".to_string(),
            "2:0: Avoid using `or` statements with endless methods.".to_string(),
            "3:0: Avoid using `if` statements with endless methods.".to_string(),
        ]
    );
}

#[test]
fn no_offense_with_ruby30() {
    let src = b"def foo = (true and bar)\ndef baz = x || y\ndef qux\n  a and b\nend\n";
    assert!(ambiguous_endless(src, 300).is_empty());
}

#[test]
fn no_offense_below_ruby30() {
    assert!(ambiguous_endless(ENDLESS_OFFENSES, 270).is_empty());
}

// ---------------------------------------------------------------------------
// Style/CommandLiteral

use nitrocop::cop::style::command_literal::{CommandLiteral, CommandLiteralStyle};

fn command_literal(src: &[u8], style: CommandLiteralStyle) -> Vec<Diagnostic> {
    run_nodes(src, |s, n| CommandLiteral.check_node(s, n, style, false))
}

#[test]
fn percent_x_style_flags_backticks() {
    let diags = command_literal(b"x = `simple command`\ny = `cmd with #{expr}`\n", CommandLiteralStyle::PercentX);
    assert_eq!(diags.len(), 2, "Expected 2 offenses but got {:?}", messages(&diags));
}

#[test]
fn percent_x_style_flags_nested_backticks() {
    let diags = command_literal(b"z = `outer #{`inner`}`\n", CommandLiteralStyle::PercentX);
    assert_eq!(diags.len(), 2, "Expected 2 offenses but got {:?}", messages(&diags));
}

#[test]
fn percent_x_style_flags_multiline_backticks() {
    let diags = command_literal(b"w = `\n  multiline\n  command\n`\n", CommandLiteralStyle::PercentX);
    assert_eq!(diags.len(), 1, "Expected 1 offense but got {:?}", messages(&diags));
}

#[test]
fn backticks_style_flags_inner_backticks() {
    let diags = command_literal(b"x = `echo \\`ls\\``\n", CommandLiteralStyle::Backticks);
    assert_eq!(diags.len(), 1, "Expected 1 offense but got {:?}", messages(&diags));
    let m = String::from_utf8_lossy(&diags[0].message).to_string();
    assert!(m.contains("%x"), "Expected '%x' in message but got: {}", m);
}

#[test]
fn backticks_style_allows_percent_x_with_inner_backticks() {
    let diags = command_literal(b"x = %x(echo `ls`)\n", CommandLiteralStyle::Backticks);
    assert_eq!(diags.len(), 0, "Expected 0 offenses but got {:?}", messages(&diags));
}

#[test]
fn command_literal_backticks_and_mixed_styles() {
    assert_eq!(
        messages(&command_literal(b"x = %x(ls)\n", CommandLiteralStyle::Backticks)),
        vec!["1:4: Use backticks around command string.".to_string()]
    );
    assert_eq!(
        messages(&command_literal(b"x = `\n  a\n  b\n`\ny = %x(ls)\n", CommandLiteralStyle::Mixed)),
        vec!["1:4: Use `%x` around command string.".to_string(), "5:4: Use backticks around command string.".to_string()]
    );
    assert!(command_literal(b"x = `ls`\n", CommandLiteralStyle::Other).is_empty());
}

// ---------------------------------------------------------------------------
// Style/Copyright

use nitrocop::cop::style::copyright::Copyright;

const NOTICE: &[u8] = b"^Copyright (\\(c\\) )?2[0-9]{3} .+";
const AUTOCORRECT_NOTICE: &[u8] = b"# Copyright (c) 2024 Acme Inc.";

fn copyright(src: &[u8], autocorrect: &[u8]) -> (Vec<Diagnostic>, Vec<Correction>) {
    Copyright.check_lines(&SourceFile::new(src.to_vec()), NOTICE, autocorrect)
}

const COPYRIGHT_MESSAGE: &str =
    "1:0: Include a copyright notice matching `^Copyright (\\(c\\) )?2[0-9]{3} .+` before any code.";

#[test]
fn missing_notice() {
    let (d, _) = copyright(b"# no copyright here\n", AUTOCORRECT_NOTICE);
    assert_eq!(messages(&d), vec![COPYRIGHT_MESSAGE.to_string()]);
}

#[test]
fn missing_notice_with_code() {
    let (d, _) = copyright(b"class Foo\n  def bar; end\nend\n", AUTOCORRECT_NOTICE);
    assert_eq!(messages(&d), vec![COPYRIGHT_MESSAGE.to_string()]);
}

#[test]
fn missing_notice_wrong_text() {
    let (d, _) = copyright(b"# Copyleft (c) 2024 Acme Inc.\nclass Foo; end\n", AUTOCORRECT_NOTICE);
    assert_eq!(messages(&d), vec![COPYRIGHT_MESSAGE.to_string()]);
}

#[test]
fn no_offense_fixture() {
    let (d, f) = copyright(b"# Copyright (c) 2024 Acme Inc.\nclass Foo; end\n", AUTOCORRECT_NOTICE);
    assert!(d.is_empty() && f.is_empty());
    let (d, _) = copyright(b"=begin\nCopyright 2023 Someone\n=end\nclass Foo; end\n", AUTOCORRECT_NOTICE);
    assert!(d.is_empty());
}

#[test]
fn empty_autocorrect_notice_produces_no_offenses() {
    let (d, f) = copyright(b"# no copyright here\nclass Foo; end\n", b"");
    assert!(d.is_empty(), "Expected no offenses with empty AutocorrectNotice, got: {:?}", messages(&d));
    assert!(f.is_empty());
}

#[test]
fn autocorrect_inserts_notice_at_top() {
    let src = b"class Foo; end\n";
    let (_, f) = copyright(src, AUTOCORRECT_NOTICE);
    assert_eq!(apply(src, &f), b"# Copyright (c) 2024 Acme Inc.\nclass Foo; end\n".to_vec());
}

#[test]
fn autocorrect_preserves_existing_comments_and_code() {
    let src = b"# some other banner\nclass Foo\nend\n";
    let (_, f) = copyright(src, AUTOCORRECT_NOTICE);
    assert_eq!(apply(src, &f), b"# Copyright (c) 2024 Acme Inc.\n# some other banner\nclass Foo\nend\n".to_vec());
}

#[test]
fn copyright_invalid_pattern_reports_nothing() {
    let (d, f) = Copyright.check_lines(&SourceFile::new(b"class Foo; end\n".to_vec()), b"(", AUTOCORRECT_NOTICE);
    assert!(d.is_empty() && f.is_empty());
}

// ---------------------------------------------------------------------------
// Style/EmptyElse

use nitrocop::cop::style::empty_else::{EmptyElse, EmptyElseStyle};

fn empty_else(src: &[u8], style: EmptyElseStyle, allow_comments: bool) -> Vec<Diagnostic> {
    run_nodes(src, |s, n| EmptyElse.check_node(s, n, style, allow_comments))
}

#[test]
fn allow_comments_empty_else_with_comment_no_offense() {
    let diags = empty_else(b"if condition\n  statement\nelse\n  # valid reason\nend\n", EmptyElseStyle::Both, true);
    assert!(diags.is_empty(), "AllowComments: true should skip empty else with comment");
}

#[test]
fn allow_comments_case_else_with_comment_no_offense() {
    let diags = empty_else(b"case x\nwhen 1\n  'one'\nelse\n  # intentionally empty\nend\n", EmptyElseStyle::Both, true);
    assert!(diags.is_empty(), "AllowComments: true should skip empty case/else with comment");
}

#[test]
fn allow_comments_empty_else_without_comment_still_offense() {
    let diags = empty_else(b"if condition\n  statement\nelse\nend\n", EmptyElseStyle::Both, true);
    assert_eq!(diags.len(), 1, "AllowComments: true should still flag empty else without comment");
}

#[test]
fn empty_else_styles() {
    let src = b"if a\n  b\nelsif c\n  d\nelse\n  nil\nend\nunless e\n  f\nelse\nend\n";
    assert_eq!(
        messages(&empty_else(src, EmptyElseStyle::Both, false)),
        vec!["5:0: Redundant `else`-clause.".to_string(), "10:0: Redundant `else`-clause.".to_string()]
    );
    assert_eq!(messages(&empty_else(src, EmptyElseStyle::Nil, false)), vec!["5:0: Redundant `else`-clause.".to_string()]);
    assert_eq!(messages(&empty_else(src, EmptyElseStyle::Empty, false)), vec!["10:0: Redundant `else`-clause.".to_string()]);
}

// ---------------------------------------------------------------------------
// RSpec/AroundBlock

use nitrocop::cop::rspec::around_block::AroundBlock;

fn around_block(src: &[u8]) -> Vec<Diagnostic> {
    run_nodes(src, |s, n| AroundBlock.check_node(s, n))
}

#[test]
fn around_block_without_parameter() {
    assert_eq!(
        messages(&around_block(b"around do\n  something\nend\n")),
        vec!["1:0: Test object should be passed to around block.".to_string()]
    );
    assert!(around_block(b"around do\n  yield\nend\n").is_empty());
    assert!(around_block(b"around { _1.run }\n").is_empty());
}

#[test]
fn around_block_unused_parameter() {
    assert_eq!(
        messages(&around_block(b"around do |test|\n  something\nend\n")),
        vec!["1:11: You should call `test.call` or `test.run`.".to_string()]
    );
    assert!(around_block(b"around do |test|\n  test.run\nend\n").is_empty());
    assert!(around_block(b"around do |test|\n  with_x(&test)\nend\n").is_empty());
    assert!(around_block(b"around do |test|\n  wrap(test)\nend\n").is_empty());
    assert!(around_block(b"around do |ex|\n  if x\n    ex.call\n  end\nend\n").is_empty());
}

// ---------------------------------------------------------------------------
// RSpec/DescribeMethod

use nitrocop::cop::rspec::describe_method::DescribeMethod;

fn describe_method(src: &[u8]) -> Vec<Diagnostic> {
    let (source, root) = parse(src);
    DescribeMethod.check_source(&source, &root)
}

const DESCRIBE_MESSAGE: &str = "The second argument to describe should be the method being tested. '#instance' or '.class'.";

#[test]
fn describe_method_top_level_groups() {
    assert_eq!(
        messages(&describe_method(b"describe Foo, 'bar' do\nend\n")),
        vec![format!("1:14: {}", DESCRIBE_MESSAGE)]
    );
    assert!(describe_method(b"describe Foo, '#bar' do\nend\n").is_empty());
    assert!(describe_method(b"describe Foo, '.bar' do\nend\n").is_empty());
    assert!(describe_method(b"describe 'Foo', 'bar' do\nend\n").is_empty());
}

#[test]
fn describe_method_unwraps_single_module_but_not_nested_groups() {
    let src = b"module M\n  RSpec.describe Foo, 'bar' do\n    describe Foo, 'baz' do\n    end\n  end\nend\n";
    assert_eq!(messages(&describe_method(src)), vec![format!("2:22: {}", DESCRIBE_MESSAGE)]);
    // with several top-level statements nothing is unwrapped
    let src2 = b"require 'x'\nmodule M\n  describe Foo, 'bar' do\n  end\nend\n";
    assert!(describe_method(src2).is_empty());
}

// ---------------------------------------------------------------------------
// RSpec/EmptyLineAfterFinalLet

use nitrocop::cop::rspec::empty_line_after_final_let::EmptyLineAfterFinalLet;

fn final_let(src: &[u8]) -> Vec<Diagnostic> {
    let (source, root, comments) = parse_with_comments(src);
    EmptyLineAfterFinalLet.check_source(&source, &root, &comments)
}

#[test]
fn final_let_without_blank_line() {
    let src = b"describe Foo do\n  let(:a) { 1 }\n  let!(:b) { 2 }\n  it { }\nend\n";
    assert_eq!(messages(&final_let(src)), vec!["3:2: Add an empty line after the last `let!`.".to_string()]);
    let ok = b"describe Foo do\n  let(:a) { 1 }\n\n  it { }\nend\n";
    assert!(final_let(ok).is_empty());
}

#[test]
fn final_let_skips_comments_and_reports_enable_directive() {
    let src = b"describe Foo do\n  let(:a) { 1 }\n  # note\n\n  it { }\nend\n";
    assert!(final_let(src).is_empty());
    let src2 = b"describe Foo do\n  let(:a) { 1 }\n  # rubocop:enable Foo\n  it { }\nend\n";
    assert_eq!(messages(&final_let(src2)), vec!["3:2: Add an empty line after the last `let`.".to_string()]);
    // shared groups are not checked, nor a let that is last
    assert!(final_let(b"shared_examples 'x' do\n  let(:a) { 1 }\n  it { }\nend\n").is_empty());
    assert!(final_let(b"describe Foo do\n  let(:a) { 1 }\nend\n").is_empty());
}

#[test]
fn final_let_counts_heredoc_body() {
    let src = b"describe Foo do\n  let(:a) { <<~TEXT }\n    body\n  TEXT\n  it { }\nend\n";
    assert_eq!(messages(&final_let(src)), vec!["4:2: Add an empty line after the last `let`.".to_string()]);
}

// ---------------------------------------------------------------------------
// RSpec/ExampleLength

use nitrocop::cop::rspec::example_length::ExampleLength;

fn example_length(src: &[u8], max: usize, count_comments: bool, kinds: Vec<Vec<u8>>) -> Vec<Diagnostic> {
    run_nodes(src, |s, n| ExampleLength.check_node(s, n, max, count_comments, &kinds))
}

#[test]
fn example_length_counts_body_lines() {
    let src = b"it do\n  a\n  # c\n\n  b\n  c\nend\n";
    assert_eq!(messages(&example_length(src, 2, false, vec![])), vec!["1:0: Example has too many lines. [3/2]".to_string()]);
    assert!(example_length(src, 3, false, vec![]).is_empty());
    assert_eq!(messages(&example_length(src, 3, true, vec![])), vec!["1:0: Example has too many lines. [4/3]".to_string()]);
    assert!(example_length(b"obj.it do\n  a\n  b\nend\n", 1, false, vec![]).is_empty());
}

#[test]
fn example_length_count_as_one() {
    let src = b"it do\n  [\n    1,\n    2\n  ]\n  y\nend\n";
    assert_eq!(messages(&example_length(src, 2, false, vec![])), vec!["1:0: Example has too many lines. [5/2]".to_string()]);
    assert!(example_length(src, 2, false, vec![b"array".to_vec()]).is_empty());
}

// ---------------------------------------------------------------------------
// RSpec/ReceiveMessages

use nitrocop::cop::rspec::receive_messages::ReceiveMessages;

fn receive_messages(src: &[u8]) -> Vec<Diagnostic> {
    run_nodes(src, |s, n| ReceiveMessages.check_node(s, n))
}

const RECEIVE_MESSAGE: &str = "Use `receive_messages` instead of multiple stubs.";

#[test]
fn receive_messages_groups_stubs_of_one_receiver() {
    let src = b"before do\n  allow(x).to receive(:a).and_return(1)\n  allow(y).to receive(:a).and_return(1)\n  allow(x).to receive(:b).and_return(2)\nend\n";
    assert_eq!(
        messages(&receive_messages(src)),
        vec![format!("2:2: {}", RECEIVE_MESSAGE), format!("4:2: {}", RECEIVE_MESSAGE)]
    );
}

#[test]
fn receive_messages_duplicates_and_shapes() {
    // a repeated message rules the group out, but a later stub may start one
    let src = b"before do\n  allow(x).to receive(:a).and_return(1)\n  allow(x).to receive(:a).and_return(2)\n  allow(x).to receive(:b).and_return(3)\nend\n";
    assert_eq!(
        messages(&receive_messages(src)),
        vec![format!("3:2: {}", RECEIVE_MESSAGE), format!("4:2: {}", RECEIVE_MESSAGE)]
    );
    let heredoc = b"before do\n  allow(x).to receive(:a).and_return(<<~A)\n    t\n  A\n  allow(x).to receive(:b).and_return(2)\nend\n";
    assert!(receive_messages(heredoc).is_empty());
    let strings = b"before do\n  allow(x).to receive('a').and_return(1)\n  allow(x).to receive(:b).and_return(2)\nend\n";
    assert!(receive_messages(strings).is_empty());
}

// ---------------------------------------------------------------------------
// Security/Eval

use nitrocop::cop::security::eval::Eval;

fn eval_cop(src: &[u8]) -> Vec<Diagnostic> {
    run_nodes(src, |s, n| Eval.check_node(s, n))
}

#[test]
fn eval_flags_dynamic_code() {
    assert_eq!(
        messages(&eval_cop(b"eval(code)\nbinding.eval(code)\nKernel.eval(code)\n::Kernel.eval(code)\n")),
        vec![
            "1:0: The use of `eval` is a serious security risk.".to_string(),
            "2:8: The use of `eval` is a serious security risk.".to_string(),
            "3:7: The use of `eval` is a serious security risk.".to_string(),
            "4:9: The use of `eval` is a serious security risk.".to_string(),
        ]
    );
}

#[test]
fn eval_allows_literals_and_other_receivers() {
    assert!(eval_cop(b"eval('1 + 1')\n").is_empty());
    assert!(eval_cop(b"eval(\"foo#{2}\")\n").is_empty());
    assert!(eval_cop(b"eval(\"foo#{[1, :a]}\")\n").is_empty());
    assert_eq!(eval_cop(b"eval(\"foo#{bar}\")\n").len(), 1);
    assert!(eval_cop(b"obj.eval(code)\n").is_empty());
    assert!(eval_cop(b"eval\n").is_empty());
}

// ---------------------------------------------------------------------------
// Style/AccessModifierDeclarations

use nitrocop::cop::style::access_modifier_declarations::{AccessModifierConfig, AccessModifierDeclarations, AccessModifierStyle};

fn access_modifiers(src: &[u8], style: AccessModifierStyle) -> Vec<Diagnostic> {
    let (source, root) = parse(src);
    let cfg = AccessModifierConfig {
        style,
        allow_modifiers_on_symbols: true,
        allow_modifiers_on_attrs: true,
        allow_modifiers_on_alias_method: true,
    };
    AccessModifierDeclarations.check_source(&source, &root, cfg)
}

#[test]
fn access_modifier_group_style_flags_last_inline_use() {
    let src = b"class A\n  private def a; end\n  private def b; end\n  protected def c; end\nend\n";
    assert_eq!(
        messages(&access_modifiers(src, AccessModifierStyle::Group)),
        vec![
            "3:2: `private` should not be inlined in method definitions.".to_string(),
            "4:2: `protected` should not be inlined in method definitions.".to_string(),
        ]
    );
    // symbols are allowed by default, and blocks are not class bodies
    assert!(access_modifiers(b"class A\n  private :a\nend\n", AccessModifierStyle::Group).is_empty());
    assert!(access_modifiers(b"class A\n  included do\n    private def a; end\n  end\nend\n", AccessModifierStyle::Group).is_empty());
}

#[test]
fn access_modifier_inline_style_flags_bare_modifiers() {
    let src = b"class A\n  private\n  def a; end\nend\nfoo do\n  private\nend\n";
    assert_eq!(
        messages(&access_modifiers(src, AccessModifierStyle::Inline)),
        vec!["2:2: `private` should not be used in a group style.".to_string()]
    );
}

// ---------------------------------------------------------------------------
// Style/ConditionalAssignment

use nitrocop::cop::style::conditional_assignment::{ConditionalAssignment, ConditionalAssignmentStyle};

#[test]
fn conditional_assignment_flags_and_corrects() {
    let src = b"if cond\n  x = 1\nelse\n  x = 2\nend\n";
    let (d, f) = run_nodes_fix(src, |s, n| ConditionalAssignment.check_node(s, n, ConditionalAssignmentStyle::AssignToCondition));
    assert_eq!(
        messages(&d),
        vec!["1:0: Use the return value of `if` expression for variable assignment and comparison.".to_string()]
    );
    assert_eq!(String::from_utf8(apply(src, &f)).unwrap(), "x = if cond\n  1\nelse\n  2\nend\n");
}

#[test]
fn conditional_assignment_needs_same_target() {
    let src = b"if cond\n  x = 1\nelse\n  y = 2\nend\n";
    let (d, _) = run_nodes_fix(src, |s, n| ConditionalAssignment.check_node(s, n, ConditionalAssignmentStyle::AssignToCondition));
    assert!(d.is_empty());
    let src2 = b"if cond\n  x = 1\nelse\n  x = 2\nend\n";
    let (d2, _) = run_nodes_fix(src2, |s, n| ConditionalAssignment.check_node(s, n, ConditionalAssignmentStyle::Other));
    assert!(d2.is_empty());
}

// ---------------------------------------------------------------------------
// Style/EmptyCaseCondition

use nitrocop::cop::style::empty_case_condition::EmptyCaseCondition;

fn empty_case(src: &[u8]) -> (Vec<Diagnostic>, Vec<Correction>) {
    let (source, root) = parse(src);
    EmptyCaseCondition.check_source(&source, &root)
}

#[test]
fn empty_case_condition_flags_and_corrects() {
    let src = b"case\nwhen a, b\n  1\nwhen c\n  2\nend\n";
    let (d, f) = empty_case(src);
    assert_eq!(
        messages(&d),
        vec!["1:0: Do not use empty `case` condition, instead use an `if` expression.".to_string()]
    );
    assert_eq!(String::from_utf8(apply(src, &f)).unwrap(), "if a || b\n  1\nelsif c\n  2\nend\n");
}

#[test]
fn empty_case_condition_skips_unsupported_positions() {
    assert!(empty_case(b"case x\nwhen 1\n  2\nend\n").0.is_empty());
    assert!(empty_case(b"return case\nwhen a\n  1\nend\n").0.is_empty());
    assert!(empty_case(b"foo(case\nwhen a\n  1\nend)\n").0.is_empty());
    assert!(empty_case(b"def m\n  case\n  when a\n    return 1\n  end\nend\n").0.is_empty());
    assert_eq!(empty_case(b"v = case\nwhen a\n  1\nend\n").0.len(), 1);
}

// ---------------------------------------------------------------------------
// Style/HashConversion

use nitrocop::cop::style::hash_conversion::HashConversion;

fn hash_conversion(src: &[u8], allow_splat: bool) -> (Vec<Diagnostic>, Vec<Correction>) {
    let (source, root) = parse(src);
    HashConversion.check_source(&source, &root, allow_splat)
}

#[test]
fn hash_conversion_messages_and_corrections() {
    let src = b"Hash[ary]\nHash[a, b, c, d]\nHash[key: 1]\nHash[]\n";
    let (d, f) = hash_conversion(src, true);
    assert_eq!(
        messages(&d),
        vec![
            "1:0: Prefer `ary.to_h` to `Hash[ary]`.".to_string(),
            "2:0: Prefer literal hash to `Hash[arg1, arg2, ...]`.".to_string(),
            "3:0: Prefer literal hash to `Hash[key: value, ...]`.".to_string(),
            "4:0: Prefer literal hash to `Hash[arg1, arg2, ...]`.".to_string(),
        ]
    );
    assert_eq!(String::from_utf8(apply(src, &f)).unwrap(), "ary.to_h\n{a => b, c => d}\n{key: 1}\n{}\n");
}

#[test]
fn hash_conversion_nested_and_splat() {
    let (d, f) = hash_conversion(b"Hash[x.map { |k, v| [k, Hash[v]] }]\n", true);
    assert_eq!(d.len(), 1);
    assert_eq!(String::from_utf8(f[0].replacement.clone()).unwrap(), "(x.map { |k, v| [k, Hash[v]] }).to_h");
    assert!(hash_conversion(b"Hash[*pairs]\n", true).0.is_empty());
    assert_eq!(hash_conversion(b"Hash[*pairs]\n", false).0.len(), 1);
}

// ---------------------------------------------------------------------------
// Style/HashLikeCase

use nitrocop::cop::style::hash_like_case::HashLikeCase;

fn hash_like_case(src: &[u8], min: usize) -> Vec<Diagnostic> {
    let (source, root) = parse(src);
    HashLikeCase.check_source(&source, &root, min)
}

#[test]
fn hash_like_case_flags_simple_mappings() {
    let src = b"case x\nwhen 'a'\n  1\nwhen 'b'\n  2\nwhen 'c'\n  3\nend\n";
    assert_eq!(messages(&hash_like_case(src, 3)), vec!["1:0: Consider replacing `case-when` with a hash lookup.".to_string()]);
    assert!(hash_like_case(src, 4).is_empty());
}

#[test]
fn hash_like_case_needs_same_types_and_no_else() {
    let mixed = b"case x\nwhen 'a'\n  1\nwhen :b\n  2\nwhen 'c'\n  3\nend\n";
    assert!(hash_like_case(mixed, 3).is_empty());
    let with_else = b"case x\nwhen 'a'\n  1\nwhen 'b'\n  2\nwhen 'c'\n  3\nelse\n  4\nend\n";
    assert!(hash_like_case(with_else, 3).is_empty());
    let arrays = b"case x\nwhen :a\n  [1]\nwhen :b\n  [2, 3]\nwhen :c\n  []\nend\n";
    assert_eq!(hash_like_case(arrays, 3).len(), 1);
}

// ---------------------------------------------------------------------------
// Style/HashTransformValues

use nitrocop::cop::style::hash_transform_values::{contains_identifier, HashTransformValues};

fn transform_values(src: &[u8]) -> Vec<Diagnostic> {
    run_nodes(src, |s, n| HashTransformValues.check_node(s, n))
}

#[test]
fn hash_transform_values_four_shapes() {
    let src = b"x.each_with_object({}) { |(k, v), h| h[k] = v * 2 }\nHash[x.map { |k, v| [k, v.to_s] }]\nx.map { |k, v| [k, v + 1] }.to_h\nx.to_h { |k, v| [k, f(v)] }\n";
    assert_eq!(
        messages(&transform_values(src)),
        vec![
            "1:0: Prefer `transform_values` over `each_with_object`.".to_string(),
            "2:0: Prefer `transform_values` over `Hash[_.map {...}]`.".to_string(),
            "3:0: Prefer `transform_values` over `map {...}.to_h`.".to_string(),
            "4:0: Prefer `transform_values` over `to_h {...}`.".to_string(),
        ]
    );
}

#[test]
fn hash_transform_values_rejected_shapes() {
    assert!(transform_values(b"x.to_h { |k, v| [k, v] }\n").is_empty());
    assert!(transform_values(b"x.to_h { |k, v| [k, k + v] }\n").is_empty());
    assert!(transform_values(b"[1, 2].to_h { |k, v| [k, v * 2] }\n").is_empty());
    assert!(transform_values(b"x.each_with_object({}) { |item, h| h[item] = true }\n").is_empty());
    assert!(transform_values(b"x.each_with_object({}) { |(k, v), h| h[k] = h.size + v }\n").is_empty());
}

#[test]
fn contains_identifier_respects_word_boundaries() {
    assert!(contains_identifier(b"v + 1", b"v"));
    assert!(!contains_identifier(b"value + 1", b"v"));
    assert!(!contains_identifier(b"a_v", b"v"));
    assert!(contains_identifier(b"f(v)", b"v"));
    assert!(!contains_identifier(b"v", b""));
}

// ---------------------------------------------------------------------------
// Style/InverseMethods

use nitrocop::cop::style::inverse_methods::{build_inverse_blocks_with_bang, build_inverse_map, InverseMethods, InverseMethodsConfig};

fn inverse_methods(src: &[u8]) -> (Vec<Diagnostic>, Vec<Correction>) {
    let cfg = InverseMethodsConfig { inverse_methods: None, inverse_blocks: None };
    run_nodes_fix(src, |s, n| InverseMethods.check_node(s, n, &cfg))
}

#[test]
fn inverse_methods_negated_predicates() {
    let src = b"!foo.any?\n!(a == b)\n!!foo.any?\n!foo&.any?\n!(A < B)\n";
    let (d, f) = inverse_methods(src);
    assert_eq!(
        messages(&d),
        vec!["1:0: Use `none?` instead of inverting `any?`.".to_string(), "2:0: Use `!=` instead of inverting `==`.".to_string()]
    );
    assert_eq!(String::from_utf8(apply(src, &f)).unwrap(), "foo.none?\na != b\n!!foo.any?\n!foo&.any?\n!(A < B)\n");
}

#[test]
fn inverse_methods_negated_blocks() {
    let src = b"foo.select { |f| !f.nil? }\nfoo.reject! { |k| k != 1 }\nfoo.select { |f| next if x; !f }\n";
    let (d, f) = inverse_methods(src);
    assert_eq!(
        messages(&d),
        vec!["1:0: Use `reject` instead of inverting `select`.".to_string(), "2:0: Use `select!` instead of inverting `reject!`.".to_string()]
    );
    assert_eq!(
        String::from_utf8(apply(src, &f)).unwrap(),
        "foo.reject { |f| f.nil? }\nfoo.select! { |k| k == 1 }\nfoo.select { |f| next if x; !f }\n"
    );
}

#[test]
fn inverse_maps_from_configuration() {
    let configured = vec![(b":foo?".to_vec(), b":bar?".to_vec())];
    assert_eq!(build_inverse_map(Some(&configured)), vec![(b"foo?".to_vec(), b"bar?".to_vec())]);
    assert_eq!(build_inverse_map(None).len(), 12);
    let bang = build_inverse_blocks_with_bang(None);
    assert_eq!(bang[2], (b"select!".to_vec(), b"reject!".to_vec()));
    assert_eq!(bang.len(), 4);
}

// ---------------------------------------------------------------------------
// RSpec/NotToNot

use nitrocop::cop::rspec::not_to_not::{NotToNot, NotToNotStyle};

#[test]
fn not_to_not_styles() {
    let src = b"expect(a).to_not eq(1)\nexpect(b).not_to eq(2)\n";
    assert_eq!(
        messages(&run_nodes(src, |s, n| NotToNot.check_node(s, n, NotToNotStyle::NotTo))),
        vec!["1:10: Prefer `not_to` over `to_not`.".to_string()]
    );
    assert_eq!(
        messages(&run_nodes(src, |s, n| NotToNot.check_node(s, n, NotToNotStyle::ToNot))),
        vec!["2:10: Prefer `to_not` over `not_to`.".to_string()]
    );
}

// ---------------------------------------------------------------------------
// RSpec/SingleArgumentMessageChain

use nitrocop::cop::rspec::single_argument_message_chain::SingleArgumentMessageChain;

#[test]
fn single_argument_message_chain_cases() {
    let src = b"allow(x).to receive_message_chain(:one)\nallow(x).to receive_message_chain(:one, :two)\nfoo.stub_chain('a.b')\nfoo.stub_chain('a')\n";
    assert_eq!(
        messages(&run_nodes(src, |s, n| SingleArgumentMessageChain.check_node(s, n))),
        vec![
            "1:12: Use `receive` instead of calling `receive_message_chain` with a single argument.".to_string(),
            "4:4: Use `stub` instead of calling `stub_chain` with a single argument.".to_string(),
        ]
    );
}

// ---------------------------------------------------------------------------
// RSpec/SortMetadata

use nitrocop::cop::rspec::sort_metadata::SortMetadata;

#[test]
fn sort_metadata_unsorted_symbols_and_keys() {
    let src = b"describe 'x', :b, :a do\nend\nit 'y', b: 1, a: 2 do\nend\ncontext 'z', :a, :b, c: 1 do\nend\n";
    assert_eq!(
        messages(&run_nodes(src, |s, n| SortMetadata.check_node(s, n))),
        vec!["1:14: Sort metadata alphabetically.".to_string(), "3:8: Sort metadata alphabetically.".to_string()]
    );
}

// ---------------------------------------------------------------------------
// Security/YAMLLoad

use nitrocop::cop::security::yaml_load::YamlLoad;

#[test]
fn yaml_load_before_ruby_31() {
    let src = b"YAML.load(x)\n::YAML.load(y)\nYAML.safe_load(z)\n";
    let (d, f) = run_nodes_fix(src, |s, n| YamlLoad.check_node(s, n, 270));
    assert_eq!(
        messages(&d),
        vec![
            "1:0: Prefer using `YAML.safe_load` over `YAML.load`.".to_string(),
            "2:0: Prefer using `YAML.safe_load` over `YAML.load`.".to_string(),
        ]
    );
    assert_eq!(String::from_utf8(apply(src, &f)).unwrap(), "YAML.safe_load(x)\n::YAML.safe_load(y)\nYAML.safe_load(z)\n");
    assert!(run_nodes_fix(src, |s, n| YamlLoad.check_node(s, n, 310)).0.is_empty());
}

// ---------------------------------------------------------------------------
// RSpec/RepeatedExample

use nitrocop::cop::rspec::repeated_example::RepeatedExample;

#[test]
fn repeated_example_within_group() {
    let src = b"describe Foo do\n  it { expect(a).to eq(1) }\n  it { expect(a).to eq(1) }\n  it { expect(b).to eq(1) }\nend\n";
    assert_eq!(
        messages(&run_nodes(src, |s, n| RepeatedExample.check_node(s, n))),
        vec![
            "2:2: Don't repeat examples within an example group. Repeated on line(s) 3.".to_string(),
            "3:2: Don't repeat examples within an example group. Repeated on line(s) 2.".to_string(),
        ]
    );
}

// ---------------------------------------------------------------------------
// RSpec/LeadingSubject

use nitrocop::cop::rspec::leading_subject::LeadingSubject;

#[test]
fn leading_subject_after_let() {
    let src = b"RSpec.describe Foo do\n  let(:a) { 1 }\n  subject { 2 }\nend\n";
    assert_eq!(
        messages(&run_nodes(src, |s, n| LeadingSubject.check_node(s, n))),
        vec!["3:2: Declare `subject` above any other `let` declarations.".to_string()]
    );
    assert!(run_nodes(b"describe Foo do\n  subject { 2 }\n  let(:a) { 1 }\nend\n", |s, n| LeadingSubject.check_node(s, n)).is_empty());
}

// ---------------------------------------------------------------------------
// RSpec/EmptyLineAfterExample

use nitrocop::cop::rspec::empty_line_after_example::EmptyLineAfterExample;

#[test]
fn empty_line_after_example_cases() {
    let src = b"describe Foo do\n  it 'a' do\n  end\n  it 'b' do\n  end\n\n  it('c') { }\n  it('d') { }\nend\n";
    assert_eq!(
        messages(&run_nodes(src, |s, n| EmptyLineAfterExample.check_node(s, n, true))),
        vec!["3:2: Add an empty line after `it`.".to_string()]
    );
    assert_eq!(
        messages(&run_nodes(src, |s, n| EmptyLineAfterExample.check_node(s, n, false))),
        vec!["3:2: Add an empty line after `it`.".to_string(), "7:2: Add an empty line after `it`.".to_string()]
    );
}

// ---------------------------------------------------------------------------
// Security/CompoundHash

use nitrocop::cop::security::compound_hash::CompoundHash;

#[test]
fn compound_hash_cases() {
    let src = b"def hash\n  foo.hash ^ bar.hash\nend\n";
    assert_eq!(
        messages(&run_nodes(src, |s, n| CompoundHash.check_node(s, n))),
        vec!["2:2: Use `[...].hash` instead of combining hash values manually.".to_string()]
    );
    let single = b"def hash\n  [foo].hash\nend\n";
    assert_eq!(
        messages(&run_nodes(single, |s, n| CompoundHash.check_node(s, n))),
        vec!["2:8: Delegate hash directly without wrapping in an array when only using a single value.".to_string()]
    );
    let redundant = b"def hash\n  [foo.hash, bar].hash\nend\n";
    assert_eq!(
        messages(&run_nodes(redundant, |s, n| CompoundHash.check_node(s, n))),
        vec!["2:3: Calling `.hash` on elements of a hashed array is redundant.".to_string()]
    );
}

// ---------------------------------------------------------------------------
// Standard/BlockSingleLineBraces

use nitrocop::cop::standard::block_single_line_braces::BlockSingleLineBraces;

#[test]
fn block_single_line_braces_cases() {
    let src = b"foo do |x| x end\nbar do\n  y\nend\n";
    let (source, root) = parse(src);
    let (d, f) = BlockSingleLineBraces.check_source(&source, &root);
    assert_eq!(messages(&d), vec!["1:4: Prefer `{...}` over `do...end` for single-line blocks.".to_string()]);
    assert_eq!(String::from_utf8(apply(src, &f)).unwrap(), "foo { |x| x }\nbar do\n  y\nend\n");
}

// ---------------------------------------------------------------------------
// Style/AccessorGrouping

use nitrocop::cop::style::accessor_grouping::{has_inline_rbs_comment, AccessorGrouping, AccessorStyle};

fn accessor_grouping(src: &[u8]) -> (Vec<Diagnostic>, Vec<Correction>) {
    let (source, root, comments) = parse_with_comments(src);
    let mut out = Vec::new();
    let mut fixes = Vec::new();
    for n in all_nodes(&root) {
        let (d, c) = AccessorGrouping.check_node(&source, n, &comments, AccessorStyle::Grouped);
        out.extend(d);
        fixes.extend(c);
    }
    (out, fixes)
}

#[test]
fn accessor_grouping_grouped_style() {
    let src = b"class Foo\n  attr_reader :a\n  attr_reader :b\n  attr_writer :c\nend\n";
    let (d, f) = accessor_grouping(src);
    assert_eq!(
        messages(&d),
        vec![
            "2:2: Group together all `attr_reader` attributes.".to_string(),
            "3:2: Group together all `attr_reader` attributes.".to_string(),
        ]
    );
    assert_eq!(String::from_utf8(apply(src, &f)).unwrap(), "class Foo\n  attr_reader :a, :b\n  attr_writer :c\nend\n");
}

#[test]
fn accessor_grouping_rbs_annotation_keeps_accessors_apart() {
    let (d, f) = accessor_grouping(b"class Foo\n  attr_reader :a #: Integer\n  attr_reader :b\nend\n");
    assert!(d.is_empty() && f.is_empty(), "got {:?}", messages(&d));
}

#[test]
fn accessor_grouping_comment_with_inner_rbs_marker_is_no_annotation() {
    let (d, _) = accessor_grouping(b"class Foo\n  attr_reader :a # see #: T\n  attr_reader :b\nend\n");
    assert_eq!(
        messages(&d),
        vec![
            "2:2: Group together all `attr_reader` attributes.".to_string(),
            "3:2: Group together all `attr_reader` attributes.".to_string(),
        ]
    );
}

#[test]
fn inline_rbs_comment_must_start_the_comment() {
    let (source, _, comments) = parse_with_comments(b"  attr_reader :a # see #: T\n");
    assert_eq!(comments.len(), 1);
    assert!(!has_inline_rbs_comment(&source, &comments, 2));
    let (source, _, comments) = parse_with_comments(b"  attr_reader :a #: T\n");
    assert!(has_inline_rbs_comment(&source, &comments, 2));
    let (source, _, comments) = parse_with_comments(b"  attr_reader :a, '#: T'\n");
    assert!(comments.is_empty());
    assert!(!has_inline_rbs_comment(&source, &comments, 2));
}

// ---------------------------------------------------------------------------
// Style/Alias

use nitrocop::cop::style::alias::{Alias, AliasStyle};

#[test]
fn alias_styles() {
    let (source, root) = parse(b"class A\n  alias_method :a, :b\n  alias c d\nend\n");
    assert_eq!(
        messages(&Alias.check_source(&source, &root, AliasStyle::PreferAlias)),
        vec!["2:2: Use `alias` instead of `alias_method`.".to_string()]
    );
    assert_eq!(
        messages(&Alias.check_source(&source, &root, AliasStyle::PreferAliasMethod)),
        vec!["3:2: Use `alias_method` instead of `alias`.".to_string()]
    );
}

// ---------------------------------------------------------------------------
// Style/BisectedAttrAccessor

use nitrocop::cop::style::bisected_attr_accessor::BisectedAttrAccessor;

#[test]
fn bisected_attr_accessor_pairs() {
    let src = b"class Foo\n  attr_reader :bar\n  attr_writer :bar\nend\n";
    let (d, _) = run_nodes_fix(src, |s, n| BisectedAttrAccessor.check_node(s, n));
    assert_eq!(
        messages(&d),
        vec![
            "2:14: Combine both accessors into `attr_accessor :bar`.".to_string(),
            "3:14: Combine both accessors into `attr_accessor :bar`.".to_string(),
        ]
    );
    let (d2, _) = run_nodes_fix(b"class Foo\n  attr_reader :a\n  attr_writer :b\nend\n", |s, n| BisectedAttrAccessor.check_node(s, n));
    assert!(d2.is_empty());
}

// ---------------------------------------------------------------------------
// Style/ClassEqualityComparison

use nitrocop::cop::style::class_equality_comparison::ClassEqualityComparison;

#[test]
fn class_equality_comparison_cases() {
    let src = b"x.class == Foo\nx.class.equal?(Bar)\n";
    let (source, root) = parse(src);
    let (d, f) = ClassEqualityComparison.check_source(&source, &root, &vec![b"==".to_vec(), b"equal?".to_vec(), b"eql?".to_vec()], &Vec::new());
    assert_eq!(
        messages(&d),
        vec![
            "1:2: Use `instance_of?` instead of comparing classes.".to_string(),
            "2:2: Use `instance_of?` instead of comparing classes.".to_string(),
        ]
    );
    assert_eq!(String::from_utf8(apply(src, &f)).unwrap(), "x.instance_of?(Foo)\nx.instance_of?(Bar)\n");
}

// ---------------------------------------------------------------------------
// Style/ClassMethods

use nitrocop::cop::style::class_methods::ClassMethods;

#[test]
fn class_methods_uses_self() {
    let (source, root) = parse(b"class Foo\n  def Foo.bar; end\n  def self.baz; end\nend\n");
    assert_eq!(messages(&ClassMethods.check_source(&source, &root)), vec!["2:6: Use `self.bar` instead of `Foo.bar`.".to_string()]);
}

// ---------------------------------------------------------------------------
// Style/ClassMethodsDefinitions

use nitrocop::cop::style::class_methods_definitions::{ClassMethodsDefinitions, ClassMethodsStyle};

#[test]
fn class_methods_definitions_def_self_style() {
    let src = b"class A\n  class << self\n    def foo; end\n  end\nend\n";
    assert_eq!(
        messages(&run_nodes(src, |s, n| ClassMethodsDefinitions.check_node(s, n, ClassMethodsStyle::DefSelf))),
        vec!["2:2: Do not define public methods within class << self.".to_string()]
    );
    let private = b"class A\n  class << self\n    private\n    def foo; end\n  end\nend\n";
    assert!(run_nodes(private, |s, n| ClassMethodsDefinitions.check_node(s, n, ClassMethodsStyle::DefSelf)).is_empty());
}

// ---------------------------------------------------------------------------
// Style/ClassVars

use nitrocop::cop::style::class_vars::ClassVars;

#[test]
fn class_vars_writes() {
    let src = b"class A\n  @@x = 1\n  @@x\nend\n";
    assert_eq!(
        messages(&run_nodes(src, |s, n| ClassVars.check_node(s, n))),
        vec!["2:2: Replace class var @@x with a class instance var.".to_string()]
    );
}

// ---------------------------------------------------------------------------
// Style/CombinableLoops

use nitrocop::cop::style::combinable_loops::CombinableLoops;

#[test]
fn combinable_loops_consecutive() {
    let src = b"items.each { |i| a(i) }\nitems.each { |i| b(i) }\nother.each { |i| c(i) }\n";
    // the statements are checked both at the program and at its statement list
    let (d, _) = run_nodes_fix(src, |s, n| CombinableLoops.check_node(s, n));
    assert_eq!(
        messages(&d),
        vec!["2:0: Combine this loop with the previous loop.".to_string(), "2:0: Combine this loop with the previous loop.".to_string()]
    );
}

// ---------------------------------------------------------------------------
// Style/ComparableClamp

use nitrocop::cop::style::comparable_clamp::ComparableClamp;

#[test]
fn comparable_clamp_if_chain() {
    let src = b"if x < low\n  low\nelsif high < x\n  high\nelse\n  x\nend\n";
    let (d, f) = run_nodes_fix(src, |s, n| ComparableClamp.check_node(s, n));
    assert_eq!(messages(&d), vec!["1:0: Use `clamp` instead of `if/elsif/else`.".to_string()]);
    assert_eq!(String::from_utf8(apply(src, &f)).unwrap(), "x.clamp(low, high)\n");
}

// ---------------------------------------------------------------------------
// Style/DataInheritance

use nitrocop::cop::style::data_inheritance::DataInheritance;

#[test]
fn data_inheritance_class() {
    let src = b"class Person < Data.define(:name)\nend\n";
    let (d, f) = run_nodes_fix(src, |s, n| DataInheritance.check_node(s, n));
    assert_eq!(
        messages(&d),
        vec!["1:15: Don't extend an instance initialized by `Data.define`. Use a block to customize the class.".to_string()]
    );
    assert_eq!(String::from_utf8(apply(src, &f)).unwrap(), "Person = Data.define(:name)\n");
}

// ---------------------------------------------------------------------------
// Style/DateTime

use nitrocop::cop::style::date_time::DateTime;

#[test]
fn date_time_cases() {
    let src = b"DateTime.now\nx.to_datetime\n";
    assert_eq!(
        messages(&run_nodes(src, |s, n| DateTime.check_node(s, n, false))),
        vec!["1:0: Prefer `Time` over `DateTime`.".to_string(), "2:0: Do not use `#to_datetime`.".to_string()]
    );
    assert_eq!(
        messages(&run_nodes(src, |s, n| DateTime.check_node(s, n, true))),
        vec!["1:0: Prefer `Time` over `DateTime`.".to_string()]
    );
}

// ---------------------------------------------------------------------------
// Style/DoubleNegation

use nitrocop::cop::style::double_negation::{DoubleNegation, DoubleNegationStyle};

#[test]
fn double_negation_styles() {
    let src = b"def a?\n  !!foo\nend\nx = !!bar\n";
    let (source, root) = parse(src);
    assert_eq!(
        messages(&DoubleNegation.check_source(&source, &root, DoubleNegationStyle::AllowedInReturns)),
        vec!["4:4: Avoid the use of double negation (`!!`).".to_string()]
    );
    assert_eq!(
        messages(&DoubleNegation.check_source(&source, &root, DoubleNegationStyle::Forbidden)),
        vec!["2:2: Avoid the use of double negation (`!!`).".to_string(), "4:4: Avoid the use of double negation (`!!`).".to_string()]
    );
}

// ---------------------------------------------------------------------------
// Style/EachForSimpleLoop

use nitrocop::cop::style::each_for_simple_loop::EachForSimpleLoop;

#[test]
fn each_for_simple_loop_ranges() {
    let src = b"(0...10).each { do_something }\n(1..3).each do\n  x\nend\n(0...n).each { |i| f(i) }\n";
    let (d, f) = run_nodes_fix(src, |s, n| EachForSimpleLoop.check_node(s, n));
    assert_eq!(
        messages(&d),
        vec![
            "1:0: Use `Integer#times` for a simple loop which iterates a fixed number of times.".to_string(),
            "2:0: Use `Integer#times` for a simple loop which iterates a fixed number of times.".to_string(),
        ]
    );
    assert_eq!(String::from_utf8(apply(src, &f)).unwrap(), "10.times { do_something }\n3.times do\n  x\nend\n(0...n).each { |i| f(i) }\n");
}

// ---------------------------------------------------------------------------
// Style/EmptyBlockParameter

use nitrocop::cop::style::empty_block_parameter::EmptyBlockParameter;

#[test]
fn empty_block_parameter_pipes() {
    let src = b"a do ||\n  x\nend\nb { || y }\nc { |z| z }\n";
    let (d, f) = run_nodes_fix(src, |s, n| EmptyBlockParameter.check_node(s, n));
    assert_eq!(
        messages(&d),
        vec!["1:5: Omit pipes for the empty block parameters.".to_string(), "4:4: Omit pipes for the empty block parameters.".to_string()]
    );
    assert_eq!(String::from_utf8(apply(src, &f)).unwrap(), "a do\n  x\nend\nb { y }\nc { |z| z }\n");
}

// ---------------------------------------------------------------------------
// Style/EmptyStringInsideInterpolation

use nitrocop::cop::style::empty_string_inside_interpolation::{EmptyStringInsideInterpolation, InterpolationStyle};

#[test]
fn empty_string_inside_interpolation_styles() {
    let src = b"\"#{x ? 'a' : ''}\"\n\"#{'a' if x}\"\n";
    assert_eq!(
        messages(&run_nodes(src, |s, n| EmptyStringInsideInterpolation.check_node(s, n, InterpolationStyle::TrailingConditional))),
        vec!["1:1: Do not return empty strings in string interpolation.".to_string()]
    );
    assert_eq!(
        messages(&run_nodes(src, |s, n| EmptyStringInsideInterpolation.check_node(s, n, InterpolationStyle::Ternary))),
        vec!["2:1: Do not use trailing conditionals in string interpolation.".to_string()]
    );
}

// ---------------------------------------------------------------------------
// Style/EndBlock

use nitrocop::cop::style::end_block::EndBlock;

#[test]
fn end_block_replaced_by_at_exit() {
    let src = b"END { puts 'bye' }\n";
    let (d, f) = run_nodes_fix(src, |s, n| EndBlock.check_node(s, n));
    assert_eq!(messages(&d), vec!["1:0: Avoid the use of `END` blocks. Use `Kernel#at_exit` instead.".to_string()]);
    assert_eq!(String::from_utf8(apply(src, &f)).unwrap(), "at_exit { puts 'bye' }\n");
}

// ---------------------------------------------------------------------------
// Style/EvalWithLocation

use nitrocop::cop::style::eval_with_location::EvalWithLocation;

#[test]
fn eval_with_location_messages() {
    let src = b"eval('1')\nfoo.instance_eval('x')\neval('2', binding, __FILE__, __LINE__)\neval(code)\n";
    let (d, f) = run_nodes_fix(src, |s, n| EvalWithLocation.check_node(s, n));
    assert_eq!(
        messages(&d),
        vec![
            "1:0: Pass a binding, `__FILE__`, and `__LINE__` to `eval`.".to_string(),
            "2:0: Pass `__FILE__` and `__LINE__` to `instance_eval`.".to_string(),
        ]
    );
    assert_eq!(
        String::from_utf8(apply(src, &f)).unwrap(),
        "eval('1', binding, __FILE__, __LINE__)\nfoo.instance_eval('x', __FILE__, __LINE__)\neval('2', binding, __FILE__, __LINE__)\neval(code)\n"
    );
}

// ---------------------------------------------------------------------------
// Style/FileEmpty

use nitrocop::cop::style::file_empty::FileEmpty;

#[test]
fn file_empty_size_checks() {
    let src = b"File.zero?(path)\nFile.size(path) == 0\nFile.exist?(path)\n";
    assert_eq!(
        messages(&run_nodes(src, |s, n| FileEmpty.check_node(s, n))),
        vec![
            "1:0: Use `File.empty?(path)` instead.".to_string(),
            "2:0: Use `File.empty?(path)` instead.".to_string(),
        ]
    );
}

// ---------------------------------------------------------------------------
// Style/FileNull

use nitrocop::cop::style::file_null::FileNull;

#[test]
fn file_null_strings() {
    let src = b"a = '/dev/null'\nb = 'NUL:'\nc = ['/dev/null']\n";
    let (source, root) = parse(src);
    let (d, f) = FileNull.check_source(&source, &root);
    assert_eq!(
        messages(&d),
        vec!["1:4: Use `File::NULL` instead of `/dev/null`.".to_string(), "2:4: Use `File::NULL` instead of `NUL:`.".to_string()]
    );
    assert_eq!(d.len(), f.len());
    assert_eq!(String::from_utf8(apply(src, &f)).unwrap(), "a = File::NULL\nb = File::NULL\nc = ['/dev/null']\n");
}

// ---------------------------------------------------------------------------
// Style/FileWrite

use nitrocop::cop::style::file_write::FileWrite;

#[test]
fn file_write_open_with_write_block() {
    let src = b"File.open(path, 'w') { |f| f.write(content) }\nFile.open(path, 'wb') { |f| f.write(data) }\n";
    let (d, f) = run_nodes_fix(src, |s, n| FileWrite.check_node(s, n));
    assert_eq!(messages(&d), vec!["1:0: Use `File.write`.".to_string(), "2:0: Use `File.binwrite`.".to_string()]);
    assert_eq!(String::from_utf8(apply(src, &f)).unwrap(), "File.write(path, content)\nFile.binwrite(path, data)\n");
}

// ---------------------------------------------------------------------------
// Style/FloatDivision

use nitrocop::cop::style::float_division::{FloatDivision, FloatDivisionStyle};

#[test]
fn float_division_styles() {
    let src = b"a.to_f / b.to_f\n";
    let (d, _) = run_nodes_fix(src, |s, n| FloatDivision.check_node(s, n, FloatDivisionStyle::SingleCoerce));
    assert_eq!(messages(&d), vec!["1:0: Prefer using `.to_f` on one side only.".to_string()]);
    let (d, f) = run_nodes_fix(src, |s, n| FloatDivision.check_node(s, n, FloatDivisionStyle::Fdiv));
    assert_eq!(messages(&d), vec!["1:0: Prefer using `fdiv` for float divisions.".to_string()]);
    assert_eq!(String::from_utf8(apply(src, &f)).unwrap(), "a.fdiv(b)\n");
}

// ---------------------------------------------------------------------------
// Style/For

use nitrocop::cop::style::for_cop::{ForCop, ForStyle};

#[test]
fn for_loop_each_style() {
    let src = b"for x in items\n  puts x\nend\n";
    let (d, f) = run_nodes_fix(src, |s, n| ForCop.check_node(s, n, ForStyle::Each));
    assert_eq!(messages(&d), vec!["1:0: Prefer `each` over `for`.".to_string()]);
    assert_eq!(String::from_utf8(apply(src, &f)).unwrap(), "items.each do |x|\n  puts x\nend\n");
}

// ---------------------------------------------------------------------------
// Style/FormatString

use nitrocop::cop::style::format_string::{FormatString, FormatStyle};

#[test]
fn format_string_styles() {
    let (d, f) = run_nodes_fix(b"'%d' % [x]\n", |s, n| FormatString.check_node(s, n, FormatStyle::Format));
    assert_eq!(messages(&d), vec!["1:5: Favor `format` over `String#%`.".to_string()]);
    assert_eq!(String::from_utf8(apply(b"'%d' % [x]\n", &f)).unwrap(), "format('%d', x)\n");
    let (d, _) = run_nodes_fix(b"format('%d', x)\n", |s, n| FormatString.check_node(s, n, FormatStyle::Sprintf));
    assert_eq!(messages(&d), vec!["1:0: Favor `sprintf` over `format`.".to_string()]);
}

// ---------------------------------------------------------------------------
// Style/GuardClause

use nitrocop::cop::style::guard_clause::{GuardClause, GuardClauseConfig};

#[test]
fn guard_clause_wrapping_condition() {
    let src = b"def foo\n  if something\n    work\n  end\nend\n";
    let (source, root) = parse(src);
    let (d, _) = GuardClause.check_source(&source, &root, GuardClauseConfig { min_body_length: 1, max_line_length: 120 });
    assert_eq!(
        messages(&d),
        vec!["2:2: Use a guard clause (`return unless something`) instead of wrapping the code inside a conditional expression.".to_string()]
    );
}

// ---------------------------------------------------------------------------
// Style/IfUnlessModifierOfIfUnless

use nitrocop::cop::style::if_unless_modifier_of_if_unless::IfUnlessModifierOfIfUnless;

#[test]
fn if_unless_modifier_of_if_unless_case() {
    let src = b"if a\n  b\nend if c\n";
    let (d, _) = run_nodes_fix(src, |s, n| IfUnlessModifierOfIfUnless.check_node(s, n));
    assert_eq!(messages(&d), vec!["3:4: Avoid modifier `if` after another conditional.".to_string()]);
}

// ---------------------------------------------------------------------------
// Style/ItAssignment

use nitrocop::cop::style::it_assignment::ItAssignment;

#[test]
fn it_assignment_case() {
    let d = run_nodes(b"it = 5\nthat = 6\n", |s, n| ItAssignment.check_node(s, n));
    assert_eq!(
        messages(&d),
        vec!["1:0: Avoid assigning to local variable `it`, since `it` will be the default block parameter in Ruby 3.4+. Consider using a different variable name.".to_string()]
    );
}

// ---------------------------------------------------------------------------
// Laws on concrete values

#[test]
fn comparable_clamp_branch_order_and_sides_do_not_matter() {
    for src in [
        &b"if x < low\n  low\nelsif high < x\n  high\nelse\n  x\nend\n"[..],
        &b"if high < x\n  high\nelsif x < low\n  low\nelse\n  x\nend\n"[..],
        &b"if low > x\n  low\nelsif x > high\n  high\nelse\n  x\nend\n"[..],
    ] {
        let (d, f) = run_nodes_fix(src, |s, n| ComparableClamp.check_node(s, n));
        assert_eq!(messages(&d), vec!["1:0: Use `clamp` instead of `if/elsif/else`.".to_string()]);
        assert_eq!(String::from_utf8(apply(src, &f)).unwrap(), "x.clamp(low, high)\n");
    }
}

#[test]
fn default_inverse_methods_are_mutual() {
    let map = build_inverse_map(None);
    for (a, b) in &map {
        assert!(map.iter().any(|(c, d)| c == b && d == a), "no inverse back for {:?}", a);
    }
}

#[test]
fn copyright_notice_after_leading_spaces_is_found() {
    let (d, f) = copyright(b"#   Copyright (c) 2024 Acme\nclass Foo; end\n", AUTOCORRECT_NOTICE);
    assert!(d.is_empty() && f.is_empty());
}

#[test]
fn empty_case_condition_keeps_non_utf8_conditions_readable() {
    let src = b"case\nwhen \"\xff\", b\n  1\nend\n";
    let (d, f) = empty_case(src);
    assert_eq!(d.len(), 1);
    let fixed = apply(src, &f);
    assert_eq!(fixed, "if \"\u{FFFD}\" || b\n  1\nend\n".as_bytes().to_vec());
}

// ---------------------------------------------------------------------------
// Style/ExponentialNotation

use nitrocop::cop::style::exponential_notation::{parse_i64_exec, ExponentialNotation, ExponentialStyle, MantissaRange};

fn exponential(src: &[u8], style: ExponentialStyle) -> Vec<Diagnostic> {
    run_nodes(src, |s, n| {
        let range = ExponentialNotation.mantissa_text(s, n).and_then(|m| {
            let v: f64 = String::from_utf8(m).ok()?.parse().ok()?;
            let a = v.abs();
            Some(MantissaRange { scientific: (1.0..10.0).contains(&a), engineering: (0.1..1000.0).contains(&a) })
        });
        ExponentialNotation.check_node(s, n, style, range)
    })
}

#[test]
fn exponential_notation_scientific() {
    let src = b"a = 10e5\nb = 1.5e3\nc = -0.5e-3\nd = 1.5\ne = 9.9E1_0\n";
    assert_eq!(
        messages(&exponential(src, ExponentialStyle::Scientific)),
        vec!["1:4: Use a mantissa >= 1 and < 10.".to_string(), "3:4: Use a mantissa >= 1 and < 10.".to_string()]
    );
}

#[test]
fn exponential_notation_engineering() {
    let src = b"a = 1e4\nb = 12e3\nc = 0.05e3\nd = 999.9e-6\n";
    let msg = "Use an exponent divisible by 3 and a mantissa >= 0.1 and < 1000.";
    assert_eq!(
        messages(&exponential(src, ExponentialStyle::Engineering)),
        vec![format!("1:4: {}", msg), format!("3:4: {}", msg)]
    );
}

#[test]
fn exponential_notation_integral() {
    let src = b"a = 1.5e3\nb = 10e3\nc = 1e3\nd = 0e3\ne = 1_000e-3\n";
    let msg = "Use an integer as mantissa, without trailing zero.";
    assert_eq!(
        messages(&exponential(src, ExponentialStyle::Integral)),
        vec![format!("1:4: {}", msg), format!("2:4: {}", msg), format!("5:4: {}", msg)]
    );
    assert!(exponential(src, ExponentialStyle::Other).is_empty());
}

#[test]
fn parse_i64_bounds() {
    assert_eq!(parse_i64_exec(b"-9223372036854775808"), Some(i64::MIN));
    assert_eq!(parse_i64_exec(b"9223372036854775807"), Some(i64::MAX));
    assert_eq!(parse_i64_exec(b"9223372036854775808"), None);
    assert_eq!(parse_i64_exec(b"+12"), Some(12));
    assert_eq!(parse_i64_exec(b"-"), None);
    assert_eq!(parse_i64_exec(b""), None);
    assert_eq!(parse_i64_exec(b"1a"), None);
}

// ---------------------------------------------------------------------------
// Trimming of Unicode white space

use nitrocop::bytes::{trim_end_text, trim_start_text, trim_text};

#[test]
fn trimming_removes_unicode_white_space() {
    let s = "\u{3000}\t a b\u{a0}\u{2009}\n".as_bytes();
    assert_eq!(trim_text(s), b"a b".to_vec());
    assert_eq!(trim_start_text(s), "a b\u{a0}\u{2009}\n".as_bytes().to_vec());
    assert_eq!(trim_end_text(s), "\u{3000}\t a b".as_bytes().to_vec());
    assert_eq!(trim_text("\u{200b}x".as_bytes()), "\u{200b}x".as_bytes().to_vec());
}
