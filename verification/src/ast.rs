//! The abstract syntax tree of the expression language.
//!
//! An [`Ast`] owns its whole tree. Arithmetic nodes ([`AstNode`]) and boolean
//! nodes ([`BooleanExpression`]) are separate tagged unions that meet only at
//! comparison leaves. Every type has a mathematical image (`...View`) over
//! character sequences, reached through `deep_view`, and the contracts of the
//! whole crate speak about those images.

use vstd::prelude::*;

verus! {

/// A binary arithmetic operator.
#[derive(Debug, Clone, Copy, PartialEq, Eq, Structural)]
pub enum AstOperator {
    Add,
    Subtract,
    Multiply,
    Divide,
}

/// A comparison operator joining two arithmetic expressions into a boolean.
#[derive(Debug, Clone, Copy, PartialEq, Eq, Structural)]
pub enum BooleanComparator {
    Equal,
    NotEqual,
    LessThan,
    LessThanOrEqual,
    GreaterThan,
    GreaterThanOrEqual,
}

/// A binary boolean operator.
#[derive(Debug, Clone, Copy, PartialEq, Eq, Structural)]
pub enum BooleanOperator {
    And,
    Or,
}

/// One node of the arithmetic expression tree.
#[derive(Debug)]
pub enum AstNode {
    /// A numeric literal, kept as its source text.
    Constant(String),
    /// A reference to a parameter or a previously assigned variable.
    Variable(String),
    /// A binary arithmetic operation.
    Operation { left: Box<AstNode>, op: AstOperator, right: Box<AstNode> },
    /// A call to a builtin function.
    Function { name: String, args: Vec<AstNode> },
    /// A branch chain; the terminal else arm is mandatory.
    Branch { condition_branches: Vec<Branch>, else_branch: Box<AstNode> },
    /// A sequence of variable bindings followed by the final value
    /// expression.
    AssignmentsAndExpression { assignments: Vec<Assignment>, expression: Box<AstNode> },
}

/// One conditional arm of a branch chain.
#[derive(Debug)]
pub struct Branch {
    pub condition: BooleanExpression,
    pub body: AstNode,
}

/// A boolean expression; it meets [`AstNode`] only at comparison leaves.
#[derive(Debug)]
pub enum BooleanExpression {
    /// A boolean literal.
    Constant(bool),
    /// A comparison of two arithmetic expressions.
    Comparison { left: Box<AstNode>, op: BooleanComparator, right: Box<AstNode> },
    /// A binary boolean operation.
    Operation { left: Box<BooleanExpression>, op: BooleanOperator, right: Box<BooleanExpression> },
}

/// One variable binding of an assignment sequence.
#[derive(Debug)]
pub struct Assignment {
    pub identifier: String,
    pub expression: AstNode,
}

/// The mathematical image of an [`AstNode`].
pub enum AstNodeView {
    Constant(Seq<char>),
    Variable(Seq<char>),
    Operation { left: Box<AstNodeView>, op: AstOperator, right: Box<AstNodeView> },
    Function { name: Seq<char>, args: Seq<AstNodeView> },
    Branch { condition_branches: Seq<BranchView>, else_branch: Box<AstNodeView> },
    AssignmentsAndExpression { assignments: Seq<AssignmentView>, expression: Box<AstNodeView> },
}

/// The mathematical image of a [`Branch`].
pub struct BranchView {
    pub condition: BooleanExpressionView,
    pub body: AstNodeView,
}

/// The mathematical image of a [`BooleanExpression`].
pub enum BooleanExpressionView {
    Constant(bool),
    Comparison { left: Box<AstNodeView>, op: BooleanComparator, right: Box<AstNodeView> },
    Operation {
        left: Box<BooleanExpressionView>,
        op: BooleanOperator,
        right: Box<BooleanExpressionView>,
    },
}

/// The mathematical image of an [`Assignment`].
pub struct AssignmentView {
    pub identifier: Seq<char>,
    pub expression: AstNodeView,
}

/// The image of an arithmetic node.
pub open spec fn node_view(n: AstNode) -> AstNodeView
    decreases n,
{
    match n {
        AstNode::Constant(text) => AstNodeView::Constant(text@),
        AstNode::Variable(name) => AstNodeView::Variable(name@),
        AstNode::Operation { left, op, right } => AstNodeView::Operation {
            left: Box::new(node_view(*left)),
            op,
            right: Box::new(node_view(*right)),
        },
        AstNode::Function { name, args } => AstNodeView::Function {
            name: name@,
            args: nodes_view(args@),
        },
        AstNode::Branch { condition_branches, else_branch } => AstNodeView::Branch {
            condition_branches: branches_view(condition_branches@),
            else_branch: Box::new(node_view(*else_branch)),
        },
        AstNode::AssignmentsAndExpression { assignments, expression } => AstNodeView::AssignmentsAndExpression {
            assignments: assignments_view(assignments@),
            expression: Box::new(node_view(*expression)),
        },
    }
}

/// The image of a list of arithmetic nodes, elementwise.
pub open spec fn nodes_view(s: Seq<AstNode>) -> Seq<AstNodeView>
    decreases s,
{
    if s.len() == 0 {
        Seq::empty()
    } else {
        seq![node_view(s[0])] + nodes_view(s.drop_first())
    }
}

/// The image of a list of branch arms, elementwise.
pub open spec fn branches_view(s: Seq<Branch>) -> Seq<BranchView>
    decreases s,
{
    if s.len() == 0 {
        Seq::empty()
    } else {
        seq![
            BranchView { condition: bool_view(s[0].condition), body: node_view(s[0].body) },
        ] + branches_view(s.drop_first())
    }
}

/// The image of a list of assignments, elementwise.
pub open spec fn assignments_view(s: Seq<Assignment>) -> Seq<AssignmentView>
    decreases s,
{
    if s.len() == 0 {
        Seq::empty()
    } else {
        seq![
            AssignmentView { identifier: s[0].identifier@, expression: node_view(s[0].expression) },
        ] + assignments_view(s.drop_first())
    }
}

/// The image of a boolean expression.
pub open spec fn bool_view(b: BooleanExpression) -> BooleanExpressionView
    decreases b,
{
    match b {
        BooleanExpression::Constant(v) => BooleanExpressionView::Constant(v),
        BooleanExpression::Comparison { left, op, right } => BooleanExpressionView::Comparison {
            left: Box::new(node_view(*left)),
            op,
            right: Box::new(node_view(*right)),
        },
        BooleanExpression::Operation { left, op, right } => BooleanExpressionView::Operation {
            left: Box::new(bool_view(*left)),
            op,
            right: Box::new(bool_view(*right)),
        },
    }
}

/// `nodes_view` is the elementwise image.
pub proof fn lemma_nodes_view(s: Seq<AstNode>)
    ensures
        nodes_view(s).len() == s.len(),
        forall|i: int| 0 <= i < s.len() ==> #[trigger] nodes_view(s)[i] == node_view(s[i]),
    decreases s.len(),
{
    if s.len() > 0 {
        lemma_nodes_view(s.drop_first());
    }
}

/// `branches_view` is the elementwise image.
pub proof fn lemma_branches_view(s: Seq<Branch>)
    ensures
        branches_view(s).len() == s.len(),
        forall|i: int| 0 <= i < s.len() ==> #[trigger] branches_view(s)[i] == s[i].deep_view(),
    decreases s.len(),
{
    if s.len() > 0 {
        lemma_branches_view(s.drop_first());
    }
}

/// `assignments_view` is the elementwise image.
pub proof fn lemma_assignments_view(s: Seq<Assignment>)
    ensures
        assignments_view(s).len() == s.len(),
        forall|i: int| 0 <= i < s.len() ==> #[trigger] assignments_view(s)[i] == s[i].deep_view(),
    decreases s.len(),
{
    if s.len() > 0 {
        lemma_assignments_view(s.drop_first());
    }
}

impl DeepView for AstNode {
    type V = AstNodeView;

    open spec fn deep_view(&self) -> AstNodeView {
        node_view(*self)
    }
}

impl DeepView for Branch {
    type V = BranchView;

    open spec fn deep_view(&self) -> BranchView {
        BranchView { condition: bool_view(self.condition), body: node_view(self.body) }
    }
}

impl DeepView for BooleanExpression {
    type V = BooleanExpressionView;

    open spec fn deep_view(&self) -> BooleanExpressionView {
        bool_view(*self)
    }
}

impl DeepView for Assignment {
    type V = AssignmentView;

    open spec fn deep_view(&self) -> AssignmentView {
        AssignmentView { identifier: self.identifier@, expression: node_view(self.expression) }
    }
}

/// A fully built, immutable expression tree.
///
/// `parameters` is fixed by the caller before parsing; `variables` lists the
/// names introduced by assignments in the order of their assignments;
/// `imports` lists the referenced builtin names in first-use order, each at
/// most once.
#[derive(Debug)]
pub struct Ast {
    pub(crate) name: String,
    pub(crate) root: AstNode,
    pub(crate) parameters: Vec<String>,
    pub(crate) variables: Vec<String>,
    pub(crate) imports: Vec<String>,
}

/// The mathematical image of an [`Ast`].
pub struct AstView {
    pub name: Seq<char>,
    pub root: AstNodeView,
    pub parameters: Seq<Seq<char>>,
    pub variables: Seq<Seq<char>>,
    pub imports: Seq<Seq<char>>,
}

impl DeepView for Ast {
    type V = AstView;

    closed spec fn deep_view(&self) -> AstView {
        AstView {
            name: self.name@,
            root: node_view(self.root),
            parameters: self.parameters.deep_view(),
            variables: self.variables.deep_view(),
            imports: self.imports.deep_view(),
        }
    }
}

impl Ast {
    /// Assembles a built tree; the build in the parser is the one caller.
    pub(crate) fn assemble(
        name: String,
        root: AstNode,
        parameters: Vec<String>,
        variables: Vec<String>,
        imports: Vec<String>,
    ) -> (a: Ast)
        ensures
            a.deep_view() == (AstView {
                name: name@,
                root: node_view(root),
                parameters: parameters.deep_view(),
                variables: variables.deep_view(),
                imports: imports.deep_view(),
            }),
    {
        Ast { name, root, parameters, variables, imports }
    }

    /// The root node of the expression tree.
    pub fn root(&self) -> (r: &AstNode)
        ensures
            r.deep_view() == self.deep_view().root,
    {
        &self.root
    }

    /// The exported function name.
    pub fn name(&self) -> (r: &String)
        ensures
            r@ == self.deep_view().name,
    {
        &self.name
    }

    /// The parameter names, in declaration order.
    pub fn parameters(&self) -> (r: &Vec<String>)
        ensures
            r.deep_view() == self.deep_view().parameters,
    {
        &self.parameters
    }

    /// The variable names introduced by assignments, in assignment order.
    pub fn variables(&self) -> (r: &Vec<String>)
        ensures
            r.deep_view() == self.deep_view().variables,
    {
        &self.variables
    }

    /// The referenced builtin names, in first-use order, each at most once.
    pub fn imports(&self) -> (r: &Vec<String>)
        ensures
            r.deep_view() == self.deep_view().imports,
    {
        &self.imports
    }
}

} // verus!
