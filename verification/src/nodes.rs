use vstd::prelude::*;

use crate::ident::Ident;
use crate::position::{PosV, Position};
use crate::token::{spec_token_display, token_display_string, Token, TokenV};
use crate::types::{spec_type_display, Type};
use vstd::string::StringExecFns;

verus! {

/// Mathematical model of a syntax-tree node: the node kind and the source
/// span it covers.
pub ghost struct NodeV {
    pub ty: NodeTypeV,
    pub pos: PosV,
}

/// Mathematical model of the node kinds.
pub ghost enum NodeTypeV {
    Node(Type),
    Operation(OperationTypeV),
    Assign(AssignmentV),
    Var(Seq<char>),
    IfNode(IfNodeV),
    ForNode(ForNodeV),
    WhileNode(WhileNodeV),
}

pub ghost enum OperationTypeV {
    BinaryOperationNode(Box<BinaryOperationNodeV>),
    UnaryOperationNode(Box<UnaryOperationNodeV>),
}

pub ghost struct AssignmentV {
    pub name: Seq<char>,
    pub expr: Box<NodeV>,
}

pub ghost struct IfNodeV {
    pub cases: Seq<(NodeV, NodeV)>,
    pub else_case: Option<Box<NodeV>>,
}

pub ghost struct WhileNodeV {
    pub condition: Box<NodeV>,
    pub body: Box<NodeV>,
}

pub ghost struct ForNodeV {
    pub var_name: Seq<char>,
    pub start: Box<NodeV>,
    pub end: Box<NodeV>,
    pub body: Box<NodeV>,
}

pub ghost struct BinaryOperationNodeV {
    pub left: NodeV,
    pub operation: TokenV,
    pub right: NodeV,
}

pub ghost struct UnaryOperationNodeV {
    pub operation: UnaryOperation,
    pub node: NodeV,
}

/// A node of the expression tree, carrying the span it was parsed from.
pub struct Node {
    pub ty: NodeType,
    pub pos: Position,
}

/// The closed set of node kinds: a literal value, an operation, an
/// assignment, a variable reference, and the three control-flow forms.
pub enum NodeType {
    Node(Type),
    Operation(OperationType),
    Assign(Assignment),
    Var(Ident),
    IfNode(IfNode),
    ForNode(ForNode),
    WhileNode(WhileNode),
}

pub enum OperationType {
    BinaryOperationNode(Box<BinaryOperationNode>),
    UnaryOperationNode(Box<UnaryOperationNode>),
}

/// `let <name> = <expr>`.
pub struct Assignment {
    pub name: Ident,
    pub expr: Box<Node>,
}

/// `if c1 then e1 (elif ck then ek)* (else e)?`: the ordered cases and the
/// optional else body.
pub struct IfNode {
    pub cases: Vec<(Node, Node)>,
    pub else_case: Box<Option<Node>>,
}

/// `while <condition> then <body>`.
pub struct WhileNode {
    pub condition: Box<Node>,
    pub body: Box<Node>,
}

/// `for <var> in <start> to <end> then <body>`.
pub struct ForNode {
    pub var_name: Ident,
    pub start: Box<Node>,
    pub end: Box<Node>,
    pub body: Box<Node>,
}

/// A binary operator applied to two sub-expressions.
pub struct BinaryOperationNode {
    pub left: Node,
    pub operation: Token,
    pub right: Node,
}

/// The three prefix operators.
#[derive(Clone, Copy, Debug, PartialEq, Eq, Structural)]
pub enum UnaryOperation {
    Plus,
    Minus,
    Not,
}

/// A prefix operator applied to a sub-expression.
pub struct UnaryOperationNode {
    pub operation: UnaryOperation,
    pub node: Node,
}

pub open spec fn view_node(n: Node) -> NodeV
    decreases n,
{
    NodeV { ty: view_node_type(n.ty), pos: n.pos@ }
}

pub open spec fn view_node_type(t: NodeType) -> NodeTypeV
    decreases t,
{
    match t {
        NodeType::Node(ty) => NodeTypeV::Node(ty),
        NodeType::Operation(op) => NodeTypeV::Operation(view_operation(op)),
        NodeType::Assign(a) => NodeTypeV::Assign(
            AssignmentV { name: a.name@, expr: Box::new(view_node(*a.expr)) },
        ),
        NodeType::Var(i) => NodeTypeV::Var(i@),
        NodeType::IfNode(f) => NodeTypeV::IfNode(
            IfNodeV {
                cases: view_cases(f.cases@),
                else_case: match *f.else_case {
                    Some(e) => Some(Box::new(view_node(e))),
                    None => None,
                },
            },
        ),
        NodeType::ForNode(f) => NodeTypeV::ForNode(
            ForNodeV {
                var_name: f.var_name@,
                start: Box::new(view_node(*f.start)),
                end: Box::new(view_node(*f.end)),
                body: Box::new(view_node(*f.body)),
            },
        ),
        NodeType::WhileNode(w) => NodeTypeV::WhileNode(
            WhileNodeV {
                condition: Box::new(view_node(*w.condition)),
                body: Box::new(view_node(*w.body)),
            },
        ),
    }
}

pub open spec fn view_operation(op: OperationType) -> OperationTypeV
    decreases op,
{
    match op {
        OperationType::BinaryOperationNode(b) => OperationTypeV::BinaryOperationNode(
            Box::new(
                BinaryOperationNodeV {
                    left: view_node(b.left),
                    operation: b.operation@,
                    right: view_node(b.right),
                },
            ),
        ),
        OperationType::UnaryOperationNode(u) => OperationTypeV::UnaryOperationNode(
            Box::new(
                UnaryOperationNodeV { operation: u.operation, node: view_node(u.node) },
            ),
        ),
    }
}

pub open spec fn view_cases(cases: Seq<(Node, Node)>) -> Seq<(NodeV, NodeV)>
    decreases cases,
{
    if cases.len() == 0 {
        Seq::empty()
    } else {
        seq![(view_node(cases[0].0), view_node(cases[0].1))] + view_cases(cases.drop_first())
    }
}

impl View for Node {
    type V = NodeV;

    open spec fn view(&self) -> NodeV {
        view_node(*self)
    }
}

impl View for NodeType {
    type V = NodeTypeV;

    open spec fn view(&self) -> NodeTypeV {
        view_node_type(*self)
    }
}

impl Node {
    pub fn new(ty: NodeType, pos: Position) -> (r: Self)
        ensures
            r@ == (NodeV { ty: ty@, pos: pos@ }),
    {
        Self { ty, pos }
    }

    pub fn get_type(&self) -> (r: NodeType)
        ensures
            r@ == self@.ty,
    {
        self.ty.clone()
    }

    pub fn get_pos(&self) -> (r: Position)
        ensures
            r@ == self@.pos,
    {
        self.pos.clone()
    }
}

impl Clone for Node {
    fn clone(&self) -> (r: Self)
        ensures
            r@ == self@,
        decreases *self,
    {
        Node { ty: self.ty.clone(), pos: self.pos.clone() }
    }
}

impl Clone for NodeType {
    fn clone(&self) -> (r: Self)
        ensures
            r@ == self@,
        decreases *self,
    {
        match self {
            NodeType::Node(ty) => NodeType::Node(*ty),
            NodeType::Operation(op) => NodeType::Operation(op.clone()),
            NodeType::Assign(a) => NodeType::Assign(a.clone()),
            NodeType::Var(i) => NodeType::Var(i.clone()),
            NodeType::IfNode(f) => NodeType::IfNode(f.clone()),
            NodeType::ForNode(f) => NodeType::ForNode(f.clone()),
            NodeType::WhileNode(w) => NodeType::WhileNode(w.clone()),
        }
    }
}

impl Clone for OperationType {
    fn clone(&self) -> (r: Self)
        ensures
            view_operation(r) == view_operation(*self),
        decreases *self,
    {
        match self {
            OperationType::BinaryOperationNode(b) => OperationType::BinaryOperationNode(
                Box::new((**b).clone()),
            ),
            OperationType::UnaryOperationNode(u) => OperationType::UnaryOperationNode(
                Box::new((**u).clone()),
            ),
        }
    }
}

impl Clone for Assignment {
    fn clone(&self) -> (r: Self)
        ensures
            r.name@ == self.name@,
            view_node(*r.expr) == view_node(*self.expr),
        decreases *self,
    {
        Assignment { name: self.name.clone(), expr: Box::new((*self.expr).clone()) }
    }
}

impl Clone for IfNode {
    fn clone(&self) -> (r: Self)
        ensures
            view_cases(r.cases@) == view_cases(self.cases@),
            match (*r.else_case, *self.else_case) {
                (Some(a), Some(b)) => view_node(a) == view_node(b),
                (None, None) => true,
                _ => false,
            },
        decreases *self,
    {
        let mut cases: Vec<(Node, Node)> = Vec::new();
        let n = self.cases.len();
        let mut i: usize = 0;
        while i < n
            invariant
                i <= n,
                n == self.cases.len(),
                view_cases(cases@) == view_cases(self.cases@.take(i as int)),
            decreases n - i,
        {
            let pair = (self.cases[i].0.clone(), self.cases[i].1.clone());
            let ghost prev = cases@;
            cases.push(pair);
            proof {
                lemma_view_cases_push(prev, cases@.last());
                lemma_view_cases_push_src(self.cases@, i as int);
            }
            i = i + 1;
        }
        proof {
            assert(self.cases@.take(n as int) =~= self.cases@);
        }
        let else_case: Box<Option<Node>> = match &*self.else_case {
            Some(e) => Box::new(Some(e.clone())),
            None => Box::new(None),
        };
        IfNode { cases, else_case }
    }
}

impl Clone for WhileNode {
    fn clone(&self) -> (r: Self)
        ensures
            view_node(*r.condition) == view_node(*self.condition),
            view_node(*r.body) == view_node(*self.body),
        decreases *self,
    {
        WhileNode {
            condition: Box::new((*self.condition).clone()),
            body: Box::new((*self.body).clone()),
        }
    }
}

impl Clone for ForNode {
    fn clone(&self) -> (r: Self)
        ensures
            r.var_name@ == self.var_name@,
            view_node(*r.start) == view_node(*self.start),
            view_node(*r.end) == view_node(*self.end),
            view_node(*r.body) == view_node(*self.body),
        decreases *self,
    {
        ForNode {
            var_name: self.var_name.clone(),
            start: Box::new((*self.start).clone()),
            end: Box::new((*self.end).clone()),
            body: Box::new((*self.body).clone()),
        }
    }
}

impl Clone for BinaryOperationNode {
    fn clone(&self) -> (r: Self)
        ensures
            view_node(r.left) == view_node(self.left),
            r.operation@ == self.operation@,
            view_node(r.right) == view_node(self.right),
        decreases *self,
    {
        BinaryOperationNode {
            left: self.left.clone(),
            operation: self.operation.clone(),
            right: self.right.clone(),
        }
    }
}

impl Clone for UnaryOperationNode {
    fn clone(&self) -> (r: Self)
        ensures
            r.operation == self.operation,
            view_node(r.node) == view_node(self.node),
        decreases *self,
    {
        UnaryOperationNode { operation: self.operation, node: self.node.clone() }
    }
}

/// One more case pair extends the viewed case list on the right.
pub proof fn lemma_view_cases_push(cases: Seq<(Node, Node)>, x: (Node, Node))
    ensures
        view_cases(cases.push(x)) == view_cases(cases).push((view_node(x.0), view_node(x.1))),
    decreases cases.len(),
{
    let s2 = cases.push(x);
    if cases.len() == 0 {
        assert(s2[0] == x);
        assert(s2.drop_first() =~= Seq::<(Node, Node)>::empty());
        assert(view_cases(s2.drop_first()) =~= Seq::<(NodeV, NodeV)>::empty());
        assert(view_cases(s2) =~= view_cases(cases).push((view_node(x.0), view_node(x.1))));
    } else {
        assert(s2[0] == cases[0]);
        assert(s2.drop_first() =~= cases.drop_first().push(x));
        lemma_view_cases_push(cases.drop_first(), x);
        let vx = (view_node(x.0), view_node(x.1));
        let h = (view_node(cases[0].0), view_node(cases[0].1));
        assert(view_cases(s2) == seq![h] + view_cases(cases.drop_first()).push(vx));
        assert(view_cases(cases) == seq![h] + view_cases(cases.drop_first()));
        assert(seq![h] + view_cases(cases.drop_first()).push(vx) =~= (seq![h] + view_cases(
            cases.drop_first(),
        )).push(vx));
    }
}

/// The viewed case list is the pointwise view of the case list.
pub proof fn lemma_view_cases_props(cases: Seq<(Node, Node)>)
    ensures
        view_cases(cases).len() == cases.len(),
        forall|j: int| 0 <= j < cases.len() ==> #[trigger] view_cases(cases)[j] == (
            view_node(cases[j].0),
            view_node(cases[j].1),
        ),
    decreases cases.len(),
{
    if cases.len() > 0 {
        lemma_view_cases_props(cases.drop_first());
        assert forall|j: int| 0 <= j < cases.len() implies #[trigger] view_cases(cases)[j] == (
            view_node(cases[j].0),
            view_node(cases[j].1),
        ) by {
            if j > 0 {
                assert(view_cases(cases)[j] == view_cases(cases.drop_first())[j - 1]);
                assert(cases.drop_first()[j - 1] == cases[j]);
            }
        }
    }
}

/// Taking one more source pair extends the viewed prefix on the right.
proof fn lemma_view_cases_push_src(cases: Seq<(Node, Node)>, i: int)
    requires
        0 <= i < cases.len(),
    ensures
        view_cases(cases.take(i + 1)) == view_cases(cases.take(i)).push(
            (view_node(cases[i].0), view_node(cases[i].1)),
        ),
{
    assert(cases.take(i + 1) =~= cases.take(i).push(cases[i]));
    lemma_view_cases_push(cases.take(i), cases[i]);
}

impl Assignment {
    pub fn new(name: Ident, expr: Node) -> (r: Self)
        ensures
            r.name@ == name@,
            view_node(*r.expr) == expr@,
    {
        Self { name, expr: Box::new(expr) }
    }

    pub fn get_name(&self) -> (r: Ident)
        ensures
            r@ == self.name@,
    {
        self.name.clone()
    }

    pub fn get_expr(&self) -> (r: Box<Node>)
        ensures
            view_node(*r) == view_node(*self.expr),
    {
        Box::new((*self.expr).clone())
    }
}

impl IfNode {
    pub fn new(cases: Vec<(Node, Node)>, else_case: Option<Node>) -> (r: Self)
        ensures
            view_cases(r.cases@) == view_cases(cases@),
            match (*r.else_case, else_case) {
                (Some(a), Some(b)) => view_node(a) == view_node(b),
                (None, None) => true,
                _ => false,
            },
    {
        Self { cases, else_case: Box::new(else_case) }
    }

    pub fn get_cases(&self) -> (r: Vec<(Node, Node)>)
        ensures
            view_cases(r@) == view_cases(self.cases@),
    {
        let copy = self.clone();
        copy.cases
    }

    pub fn get_else_case(&self) -> (r: Box<Option<Node>>)
        ensures
            match (*r, *self.else_case) {
                (Some(a), Some(b)) => view_node(a) == view_node(b),
                (None, None) => true,
                _ => false,
            },
    {
        match &*self.else_case {
            Some(e) => Box::new(Some(e.clone())),
            None => Box::new(None),
        }
    }
}

impl WhileNode {
    pub fn new(condition: Node, body: Node) -> (r: Self)
        ensures
            view_node(*r.condition) == condition@,
            view_node(*r.body) == body@,
    {
        Self { condition: Box::new(condition), body: Box::new(body) }
    }

    pub fn get_all(&self) -> (r: (Node, Node))
        ensures
            r.0@ == view_node(*self.condition),
            r.1@ == view_node(*self.body),
    {
        ((*self.condition).clone(), (*self.body).clone())
    }
}

impl ForNode {
    pub fn new(var_name: Ident, start: Node, end: Node, body: Node) -> (r: Self)
        ensures
            r.var_name@ == var_name@,
            view_node(*r.start) == start@,
            view_node(*r.end) == end@,
            view_node(*r.body) == body@,
    {
        Self {
            var_name,
            start: Box::new(start),
            end: Box::new(end),
            body: Box::new(body),
        }
    }

    pub fn get_all(&self) -> (r: (Ident, Node, Node, Node))
        ensures
            r.0@ == self.var_name@,
            r.1@ == view_node(*self.start),
            r.2@ == view_node(*self.end),
            r.3@ == view_node(*self.body),
    {
        (
            self.var_name.clone(),
            (*self.start).clone(),
            (*self.end).clone(),
            (*self.body).clone(),
        )
    }
}

impl BinaryOperationNode {
    pub fn new(left: Node, operation: Token, right: Node) -> (r: Self)
        ensures
            view_node(r.left) == left@,
            r.operation@ == operation@,
            view_node(r.right) == right@,
    {
        Self { left, operation, right }
    }

    pub fn get_left(&self) -> (r: Node)
        ensures
            r@ == view_node(self.left),
    {
        self.left.clone()
    }

    pub fn get_right(&self) -> (r: Node)
        ensures
            r@ == view_node(self.right),
    {
        self.right.clone()
    }

    pub fn get_operation(&self) -> (r: Token)
        ensures
            r@ == self.operation@,
    {
        self.operation.clone()
    }
}

impl UnaryOperation {
    /// The prefix operator a token stands for, if any.
    pub fn from_token(t: Token) -> (r: Option<Self>)
        ensures
            r == spec_unary_from_token(t@),
    {
        match t {
            Token::Plus => Some(UnaryOperation::Plus),
            Token::Minus => Some(UnaryOperation::Minus),
            Token::Bang => Some(UnaryOperation::Not),
            _ => None,
        }
    }
}

/// The prefix operator a token stands for.
pub open spec fn spec_unary_from_token(t: TokenV) -> Option<UnaryOperation> {
    match t {
        TokenV::Plus => Some(UnaryOperation::Plus),
        TokenV::Minus => Some(UnaryOperation::Minus),
        TokenV::Bang => Some(UnaryOperation::Not),
        _ => None,
    }
}

/// The written form of a prefix operator.
pub open spec fn spec_unary_op_display(op: UnaryOperation) -> Seq<char> {
    match op {
        UnaryOperation::Plus => "+"@,
        UnaryOperation::Minus => "-"@,
        UnaryOperation::Not => "!"@,
    }
}

/// The printed form of a node: an expression that lexes and parses back to
/// an equivalent tree.
pub open spec fn spec_node_display(n: NodeV) -> Seq<char>
    decreases n,
{
    spec_node_type_display(n.ty)
}

/// The printed form of each node kind: a literal as the value prints, an
/// operation in grouping parentheses, an assignment and the three
/// control-flow forms as they are written in the source, a variable as its
/// name. Each if case prints its condition and then its body.
pub open spec fn spec_node_type_display(t: NodeTypeV) -> Seq<char>
    decreases t,
{
    match t {
        NodeTypeV::Node(ty) => spec_type_display(ty),
        NodeTypeV::Operation(op) => "("@ + spec_operation_display(op) + ")"@,
        NodeTypeV::Assign(a) => "let "@ + a.name + " = "@ + spec_node_display(*a.expr),
        NodeTypeV::Var(name) => name,
        NodeTypeV::IfNode(f) => (if f.cases.len() == 0 {
            "if"@
        } else {
            "if "@ + spec_node_display(f.cases[0].0) + " then "@ + spec_node_display(
                f.cases[0].1,
            )
        }) + spec_elifs_from(f.cases, 1) + (match f.else_case {
            Some(e) => " else "@ + spec_node_display(*e),
            None => Seq::<char>::empty(),
        }),
        NodeTypeV::ForNode(f) => "for "@ + f.var_name + " in "@ + spec_node_display(*f.start)
            + " to "@ + spec_node_display(*f.end) + " then "@ + spec_node_display(*f.body),
        NodeTypeV::WhileNode(w) => "while "@ + spec_node_display(*w.condition) + " then "@
            + spec_node_display(*w.body),
    }
}

/// The printed form of an operation: a binary operation as its operands
/// around the operator token, a prefix operation in its own parentheses.
pub open spec fn spec_operation_display(op: OperationTypeV) -> Seq<char>
    decreases op,
{
    match op {
        OperationTypeV::BinaryOperationNode(b) => spec_node_display(b.left) + spec_token_display(
            b.operation,
        ) + spec_node_display(b.right),
        OperationTypeV::UnaryOperationNode(u) => "("@ + spec_unary_op_display(u.operation)
            + spec_node_display(u.node) + ")"@,
    }
}

/// The elif chain from case `i` on.
pub open spec fn spec_elifs_from(cases: Seq<(NodeV, NodeV)>, i: int) -> Seq<char>
    decreases cases, cases.len() - i,
{
    if i < 0 || i >= cases.len() {
        Seq::<char>::empty()
    } else {
        " elif "@ + spec_node_display(cases[i].0) + " then "@ + spec_node_display(cases[i].1)
            + spec_elifs_from(cases, i + 1)
    }
}

impl Node {
    /// Renders the node as an expression; re-lexing and re-parsing the
    /// printed form yields an equivalent tree.
    pub fn display_string(&self) -> (r: String)
        ensures
            r@ == spec_node_display(self@),
        decreases *self,
    {
        node_type_display_string(&self.ty)
    }
}

/// Renders one node kind.
fn node_type_display_string(t: &NodeType) -> (r: String)
    ensures
        r@ == spec_node_type_display(t@),
    decreases *t,
{
    match t {
        NodeType::Node(ty) => ty.display_string(),
        NodeType::Operation(op) => {
            let inner = operation_display_string(op);
            let r = String::from_str("(").concat(inner.as_str()).concat(")");
            proof {
                assert(r@ =~= spec_node_type_display(t@));
            }
            r
        },
        NodeType::Assign(a) => {
            let expr = (&*a.expr).display_string();
            let r = String::from_str("let ").concat(a.name.get().as_str()).concat(
                " = ",
            ).concat(expr.as_str());
            proof {
                assert(r@ =~= spec_node_type_display(t@));
            }
            r
        },
        NodeType::Var(i) => i.get(),
        NodeType::IfNode(f) => if_display_string(f),
        NodeType::ForNode(f) => {
            let start = (&*f.start).display_string();
            let end = (&*f.end).display_string();
            let body = (&*f.body).display_string();
            let r = String::from_str("for ").concat(f.var_name.get().as_str()).concat(
                " in ",
            ).concat(start.as_str()).concat(" to ").concat(end.as_str()).concat(
                " then ",
            ).concat(body.as_str());
            proof {
                assert(r@ =~= spec_node_type_display(t@));
            }
            r
        },
        NodeType::WhileNode(w) => {
            let cond = (&*w.condition).display_string();
            let body = (&*w.body).display_string();
            let r = String::from_str("while ").concat(cond.as_str()).concat(" then ").concat(
                body.as_str(),
            );
            proof {
                assert(r@ =~= spec_node_type_display(t@));
            }
            r
        },
    }
}

/// Renders an operation.
fn operation_display_string(op: &OperationType) -> (r: String)
    ensures
        r@ == spec_operation_display(view_operation(*op)),
    decreases *op,
{
    match op {
        OperationType::BinaryOperationNode(b) => {
            let left = b.left.display_string();
            let tok = token_display_string(&b.operation);
            let right = b.right.display_string();
            let r = left.concat(tok.as_str()).concat(right.as_str());
            proof {
                assert(r@ =~= spec_operation_display(view_operation(*op)));
            }
            r
        },
        OperationType::UnaryOperationNode(u) => {
            let sign = match u.operation {
                UnaryOperation::Plus => "+",
                UnaryOperation::Minus => "-",
                UnaryOperation::Not => "!",
            };
            let inner = u.node.display_string();
            let r = String::from_str("(").concat(sign).concat(inner.as_str()).concat(")");
            proof {
                assert(r@ =~= spec_operation_display(view_operation(*op)));
            }
            r
        },
    }
}

/// Renders an if node: the first case, the elif chain, and the optional
/// else body.
fn if_display_string(node: &IfNode) -> (r: String)
    ensures
        r@ == spec_node_type_display(
            NodeTypeV::IfNode(
                IfNodeV {
                    cases: view_cases(node.cases@),
                    else_case: match *node.else_case {
                        Some(e) => Some(Box::new(view_node(e))),
                        None => None,
                    },
                },
            ),
        ),
    decreases *node,
{
    let ghost csv = view_cases(node.cases@);
    proof {
        lemma_view_cases_props(node.cases@);
    }
    let n = node.cases.len();
    let mut s: String;
    if n == 0 {
        s = String::from_str("if");
    } else {
        let c0 = node.cases[0].0.display_string();
        let b0 = node.cases[0].1.display_string();
        s = String::from_str("if ").concat(c0.as_str()).concat(" then ").concat(b0.as_str());
        proof {
            assert(s@ =~= "if "@ + spec_node_display(csv[0].0) + " then "@ + spec_node_display(
                csv[0].1,
            ));
        }
    }
    let ghost head = s@;
    let mut i: usize = 1;
    while i < n
        invariant
            n == node.cases.len(),
            csv == view_cases(node.cases@),
            1 <= i <= n || (n == 0 && i == 1),
            s@ + spec_elifs_from(csv, i as int) == head + spec_elifs_from(csv, 1),
        decreases n - i,
    {
        proof {
            lemma_view_cases_props(node.cases@);
        }
        let ghost sold = s@;
        let c = node.cases[i].0.display_string();
        let b = node.cases[i].1.display_string();
        s = s.concat(" elif ").concat(c.as_str()).concat(" then ").concat(b.as_str());
        proof {
            assert(s@ =~= sold + (" elif "@ + spec_node_display(csv[i as int].0) + " then "@
                + spec_node_display(csv[i as int].1)));
            assert(sold + (" elif "@ + spec_node_display(csv[i as int].0) + " then "@
                + spec_node_display(csv[i as int].1)) + spec_elifs_from(csv, i + 1) =~= sold + ((
            " elif "@ + spec_node_display(csv[i as int].0) + " then "@ + spec_node_display(
                csv[i as int].1,
            )) + spec_elifs_from(csv, i + 1)));
            assert(s@ + spec_elifs_from(csv, i + 1) == head + spec_elifs_from(csv, 1));
        }
        i = i + 1;
    }
    proof {
        assert(spec_elifs_from(csv, i as int) =~= Seq::<char>::empty());
        assert(s@ + spec_elifs_from(csv, i as int) =~= s@);
        assert(s@ == head + spec_elifs_from(csv, 1));
    }
    let r = match &*node.else_case {
        Some(e) => {
            let body = e.display_string();
            let r = s.concat(" else ").concat(body.as_str());
            r
        },
        None => s,
    };
    proof {
        assert(r@ =~= spec_node_type_display(
            NodeTypeV::IfNode(
                IfNodeV {
                    cases: csv,
                    else_case: match *node.else_case {
                        Some(e) => Some(Box::new(view_node(e))),
                        None => None,
                    },
                },
            ),
        ));
    }
    r
}

impl UnaryOperationNode {
    pub fn get_node(&self) -> (r: Node)
        ensures
            r@ == view_node(self.node),
    {
        self.node.clone()
    }

    pub fn get_operation(&self) -> (r: UnaryOperation)
        ensures
            r == self.operation,
    {
        self.operation
    }

    pub fn from_token(t: Token, node: Node) -> (r: Option<Self>)
        ensures
            match (r, spec_unary_from_token(t@)) {
                (Some(u), Some(op)) => u.operation == op && view_node(u.node) == node@,
                (None, None) => true,
                _ => false,
            },
    {
        match UnaryOperation::from_token(t) {
            Some(operation) => Some(Self { operation, node }),
            None => None,
        }
    }
}

} // verus!
