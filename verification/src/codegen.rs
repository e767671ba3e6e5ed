//! Rendering of a built [`Ast`] into native source text.
//!
//! [`Ast::code`] is a pure function of the tree: it emits one inlined helper
//! definition for every imported builtin (each exactly once, in first-use
//! order, from the fixed catalog `max` / `pow`), then one exported function
//! named after the tree, taking its parameters in order as 64-bit
//! floating-point values and returning one. The output is pinned exactly by
//! [`spec_code`], so rendering the same tree twice yields identical text.

use vstd::prelude::*;
use vstd::string::StringExecFns;

use crate::ast::{
    assignments_view, branches_view, nodes_view, Assignment, AssignmentView, Ast, AstNode,
    AstNodeView, AstOperator, BooleanComparator,
    BooleanExpression, BooleanExpressionView, BooleanOperator, Branch, BranchView,
};
use crate::error::{BuildError, BuildErrorView};

verus! {

/// The source text of an arithmetic operator.
pub open spec fn spec_op_text(op: AstOperator) -> Seq<char> {
    match op {
        AstOperator::Add => "+"@,
        AstOperator::Subtract => "-"@,
        AstOperator::Multiply => "*"@,
        AstOperator::Divide => "/"@,
    }
}

/// The source text of a comparison operator.
pub open spec fn spec_cmp_text(op: BooleanComparator) -> Seq<char> {
    match op {
        BooleanComparator::Equal => "=="@,
        BooleanComparator::NotEqual => "!="@,
        BooleanComparator::LessThan => "<"@,
        BooleanComparator::LessThanOrEqual => "<="@,
        BooleanComparator::GreaterThan => ">"@,
        BooleanComparator::GreaterThanOrEqual => ">="@,
    }
}

/// The source text of a boolean operator.
pub open spec fn spec_bool_op_text(op: BooleanOperator) -> Seq<char> {
    match op {
        BooleanOperator::And => "&&"@,
        BooleanOperator::Or => "||"@,
    }
}

/// The rendering of one arithmetic node.
///
/// A constant keeps its source text with the 64-bit float suffix; an
/// operation is parenthesized; a call goes to the builtin's prefixed helper
/// name; a branch renders as an `if` / `else if` / `else` chain; an
/// assignment sequence renders its bindings before the value expression.
pub open spec fn spec_render_node(n: AstNodeView) -> Seq<char>
    decreases n, 0int,
{
    match n {
        AstNodeView::Constant(text) => text + "f64"@,
        AstNodeView::Variable(name) => name,
        AstNodeView::Operation { left, op, right } => "("@ + spec_render_node(*left) + " "@
            + spec_op_text(op) + " "@ + spec_render_node(*right) + ")"@,
        AstNodeView::Function { name, args } => "import_"@ + name + "("@ + spec_render_args(
            args,
            0,
        ) + ")"@,
        AstNodeView::Branch { condition_branches, else_branch } => {
            if condition_branches.len() == 0 {
                spec_render_node(*else_branch)
            } else {
                "if "@ + spec_render_bool(condition_branches[0].condition) + " { "@
                    + spec_render_node(condition_branches[0].body) + " }"@ + spec_render_arms(
                    condition_branches,
                    1,
                ) + " else { "@ + spec_render_node(*else_branch) + " }"@
            }
        },
        AstNodeView::AssignmentsAndExpression { assignments, expression } => spec_render_lets(
            assignments,
            0,
        ) + spec_render_node(*expression),
    }
}

/// The rendering of a call's arguments from index `i` on, separated by
/// commas.
pub open spec fn spec_render_args(args: Seq<AstNodeView>, i: int) -> Seq<char>
    decreases args, args.len() - i, 1int,
{
    if i < 0 || i >= args.len() {
        Seq::empty()
    } else if i == args.len() - 1 {
        spec_render_node(args[i])
    } else {
        spec_render_node(args[i]) + ", "@ + spec_render_args(args, i + 1)
    }
}

/// The rendering of the `else if` arms from index `i` on.
pub open spec fn spec_render_arms(arms: Seq<BranchView>, i: int) -> Seq<char>
    decreases arms, arms.len() - i, 1int,
{
    if i < 0 || i >= arms.len() {
        Seq::empty()
    } else {
        " else if "@ + spec_render_bool(arms[i].condition) + " { "@ + spec_render_node(
            arms[i].body,
        ) + " }"@ + spec_render_arms(arms, i + 1)
    }
}

/// The rendering of the bindings from index `i` on, one `let` per
/// assignment.
pub open spec fn spec_render_lets(assignments: Seq<AssignmentView>, i: int) -> Seq<char>
    decreases assignments, assignments.len() - i, 1int,
{
    if i < 0 || i >= assignments.len() {
        Seq::empty()
    } else {
        "let "@ + assignments[i].identifier + " = "@ + spec_render_node(assignments[i].expression)
            + ";\n    "@ + spec_render_lets(assignments, i + 1)
    }
}

/// The rendering of one boolean expression; comparisons and boolean
/// operations parenthesize both operands.
pub open spec fn spec_render_bool(b: BooleanExpressionView) -> Seq<char>
    decreases b, 0int,
{
    match b {
        BooleanExpressionView::Constant(v) => if v {
            "true"@
        } else {
            "false"@
        },
        BooleanExpressionView::Comparison { left, op, right } => "(("@ + spec_render_node(*left)
            + ") "@ + spec_cmp_text(op) + " ("@ + spec_render_node(*right) + "))"@,
        BooleanExpressionView::Operation { left, op, right } => "(("@ + spec_render_bool(*left)
            + ") "@ + spec_bool_op_text(op) + " ("@ + spec_render_bool(*right) + "))"@,
    }
}

/// The inlined helper definition of a builtin, when the catalog has one.
pub open spec fn spec_import_def(name: Seq<char>) -> Option<Seq<char>> {
    if name == "max"@ {
        Some("#[inline]\nfn import_max(a: f64, b: f64) -> f64 {\n    f64::max(a, b)\n}\n"@)
    } else if name == "pow"@ {
        Some("#[inline]\nfn import_pow(a: f64, b: f64) -> f64 {\n    f64::powf(a, b)\n}\n"@)
    } else {
        None
    }
}

/// Every import has a catalog entry.
pub open spec fn all_imports_supported(imports: Seq<Seq<char>>) -> bool {
    forall|i: int| 0 <= i < imports.len() ==> spec_import_def(imports[i]) is Some
}

/// The helper definitions of the imports from index `i` on, in order, or
/// `UnsupportedBuiltin` at the first name outside the catalog.
pub open spec fn spec_render_imports(imports: Seq<Seq<char>>, i: int) -> Result<
    Seq<char>,
    BuildErrorView,
>
    decreases imports.len() - i,
{
    if i < 0 || i >= imports.len() {
        Ok(Seq::empty())
    } else {
        match spec_import_def(imports[i]) {
            None => Err(BuildErrorView::UnsupportedBuiltin(imports[i])),
            Some(d) => match spec_render_imports(imports, i + 1) {
                Err(e) => Err(e),
                Ok(rest) => Ok(d + rest),
            },
        }
    }
}

/// The parameter list of the exported function, each name typed as a 64-bit
/// floating-point value.
pub open spec fn spec_render_params(params: Seq<Seq<char>>, i: int) -> Seq<char>
    decreases params.len() - i,
{
    if i < 0 || i >= params.len() {
        Seq::empty()
    } else if i == params.len() - 1 {
        params[i] + ": f64"@
    } else {
        params[i] + ": f64, "@ + spec_render_params(params, i + 1)
    }
}

/// Splitting a parameter rendering after one parameter.
proof fn lemma_render_params_step(params: Seq<Seq<char>>, i: int, prefix: Seq<char>)
    requires
        0 <= i < params.len(),
    ensures
        i < params.len() - 1 ==> prefix + spec_render_params(params, i) == (prefix + (params[i]
            + ": f64, "@)) + spec_render_params(params, i + 1),
        i == params.len() - 1 ==> prefix + spec_render_params(params, i) == (prefix + (params[i]
            + ": f64"@)) + spec_render_params(params, i + 1),
{
    if i < params.len() - 1 {
        assert(prefix + spec_render_params(params, i) =~= (prefix + (params[i] + ": f64, "@))
            + spec_render_params(params, i + 1));
    } else {
        assert(prefix + spec_render_params(params, i) =~= (prefix + (params[i] + ": f64"@))
            + spec_render_params(params, i + 1));
    }
}

/// The whole rendering of a built tree: the builtin helpers, then the
/// exported function with the rendered body.
pub open spec fn spec_code(a: crate::ast::AstView) -> Result<Seq<char>, BuildErrorView> {
    match spec_render_imports(a.imports, 0) {
        Err(e) => Err(e),
        Ok(defs) => Ok(
            defs + "#[no_mangle]\npub fn "@ + a.name + "("@ + spec_render_params(a.parameters, 0)
                + ") -> f64 {\n    "@ + spec_render_node(a.root) + "\n}\n"@,
        ),
    }
}

/// `spec_render_imports` succeeds exactly when every name from `i` on has a
/// catalog entry.
proof fn lemma_render_imports_ok(imports: Seq<Seq<char>>, i: int)
    requires
        0 <= i,
    ensures
        spec_render_imports(imports, i) is Ok <==> forall|j: int|
            i <= j < imports.len() ==> spec_import_def(#[trigger] imports[j]) is Some,
    decreases imports.len() - i,
{
    if i < imports.len() {
        lemma_render_imports_ok(imports, i + 1);
        if spec_import_def(imports[i]) is None {
            assert(!(spec_import_def(imports[i]) is Some));
        } else if spec_render_imports(imports, i + 1) is Ok {
            assert forall|j: int| i <= j < imports.len() implies spec_import_def(
                #[trigger] imports[j],
            ) is Some by {}
        } else {
            assert(exists|j: int|
                i + 1 <= j < imports.len() && !(spec_import_def(#[trigger] imports[j]) is Some));
            let jw = choose|j: int|
                i + 1 <= j < imports.len() && !(spec_import_def(#[trigger] imports[j]) is Some);
            assert(!(spec_import_def(imports[jw]) is Some));
        }
    }
}

fn render_node(n: &AstNode) -> (r: String)
    ensures
        r@ == spec_render_node(n.deep_view()),
    decreases n, 0int,
{
    match n {
        AstNode::Constant(text) => {
            let mut s = text.clone();
            s.append("f64");
            s
        },
        AstNode::Variable(name) => name.clone(),
        AstNode::Operation { left, op, right } => {
            let mut s = "(".to_owned();
            let l = render_node(left);
            s.append(l.as_str());
            s.append(" ");
            let o = op_text(op);
            s.append(o);
            s.append(" ");
            let rr = render_node(right);
            s.append(rr.as_str());
            s.append(")");
            s
        },
        AstNode::Function { name, args } => {
            let mut s = "import_".to_owned();
            s.append(name.as_str());
            s.append("(");
            let a = render_args(args);
            s.append(a.as_str());
            s.append(")");
            proof {
                crate::ast::lemma_nodes_view(args@);
                assert(nodes_view(args@) =~= args.deep_view());
            }
            s
        },
        AstNode::Branch { condition_branches, else_branch } => {
            if condition_branches.len() == 0 {
                let s = render_node(else_branch);
                proof {
                    assert(branches_view(condition_branches@) =~= Seq::<BranchView>::empty());
                }
                s
            } else {
                let mut s = "if ".to_owned();
                let c = render_bool(&condition_branches[0].condition);
                s.append(c.as_str());
                s.append(" { ");
                let b = render_node(&condition_branches[0].body);
                s.append(b.as_str());
                s.append(" }");
                let rest = render_arms(condition_branches);
                s.append(rest.as_str());
                s.append(" else { ");
                let e = render_node(else_branch);
                s.append(e.as_str());
                s.append(" }");
                proof {
                    crate::ast::lemma_branches_view(condition_branches@);
                    assert(branches_view(condition_branches@) =~= condition_branches.deep_view());
                }
                s
            }
        },
        AstNode::AssignmentsAndExpression { assignments, expression } => {
            let mut s = render_lets(assignments);
            let e = render_node(expression);
            s.append(e.as_str());
            proof {
                crate::ast::lemma_assignments_view(assignments@);
                assert(assignments_view(assignments@) =~= assignments.deep_view());
            }
            s
        },
    }
}

fn op_text(op: &AstOperator) -> (r: &'static str)
    ensures
        r@ == spec_op_text(*op),
{
    match op {
        AstOperator::Add => "+",
        AstOperator::Subtract => "-",
        AstOperator::Multiply => "*",
        AstOperator::Divide => "/",
    }
}

fn cmp_text(op: &BooleanComparator) -> (r: &'static str)
    ensures
        r@ == spec_cmp_text(*op),
{
    match op {
        BooleanComparator::Equal => "==",
        BooleanComparator::NotEqual => "!=",
        BooleanComparator::LessThan => "<",
        BooleanComparator::LessThanOrEqual => "<=",
        BooleanComparator::GreaterThan => ">",
        BooleanComparator::GreaterThanOrEqual => ">=",
    }
}

fn bool_op_text(op: &BooleanOperator) -> (r: &'static str)
    ensures
        r@ == spec_bool_op_text(*op),
{
    match op {
        BooleanOperator::And => "&&",
        BooleanOperator::Or => "||",
    }
}

fn render_args(args: &Vec<AstNode>) -> (r: String)
    ensures
        r@ == spec_render_args(args.deep_view(), 0),
    decreases args@, 0int, 0int,
{
    let ghost av = args.deep_view();
    let mut s = String::new();
    let mut i: usize = 0;
    while i < args.len()
        invariant
            i <= args@.len(),
            av == args.deep_view(),
            av.len() == args@.len(),
            spec_render_args(av, 0) == s@ + spec_render_args(av, i as int),
        decreases args@.len() - i,
    {
        let e = render_node(&args[i]);
        s.append(e.as_str());
        if i + 1 < args.len() {
            s.append(", ");
        }
        i += 1;
    }
    proof {
        assert(s@ + spec_render_args(av, args@.len() as int) =~= s@);
    }
    s
}

fn render_arms(arms: &Vec<Branch>) -> (r: String)
    ensures
        r@ == spec_render_arms(arms.deep_view(), 1),
    decreases arms@, 0int, 0int,
{
    let ghost av = arms.deep_view();
    let mut s = String::new();
    let mut i: usize = 1;
    while i < arms.len()
        invariant
            1 <= i,
            i <= arms@.len() || i == 1,
            av == arms.deep_view(),
            av.len() == arms@.len(),
            spec_render_arms(av, 1) == s@ + spec_render_arms(av, i as int),
        decreases arms@.len() - i,
    {
        s.append(" else if ");
        let c = render_bool(&arms[i].condition);
        s.append(c.as_str());
        s.append(" { ");
        let b = render_node(&arms[i].body);
        s.append(b.as_str());
        s.append(" }");
        i += 1;
    }
    proof {
        assert(s@ + spec_render_arms(av, i as int) =~= s@);
    }
    s
}

fn render_lets(assignments: &Vec<Assignment>) -> (r: String)
    ensures
        r@ == spec_render_lets(assignments.deep_view(), 0),
    decreases assignments@, 0int, 0int,
{
    let ghost av = assignments.deep_view();
    let mut s = String::new();
    let mut i: usize = 0;
    while i < assignments.len()
        invariant
            i <= assignments@.len(),
            av == assignments.deep_view(),
            av.len() == assignments@.len(),
            spec_render_lets(av, 0) == s@ + spec_render_lets(av, i as int),
        decreases assignments@.len() - i,
    {
        s.append("let ");
        s.append(assignments[i].identifier.as_str());
        s.append(" = ");
        let e = render_node(&assignments[i].expression);
        s.append(e.as_str());
        s.append(";\n    ");
        i += 1;
    }
    proof {
        assert(s@ + spec_render_lets(av, assignments@.len() as int) =~= s@);
    }
    s
}

fn render_bool(b: &BooleanExpression) -> (r: String)
    ensures
        r@ == spec_render_bool(b.deep_view()),
    decreases b, 0int,
{
    match b {
        BooleanExpression::Constant(v) => {
            if *v {
                "true".to_owned()
            } else {
                "false".to_owned()
            }
        },
        BooleanExpression::Comparison { left, op, right } => {
            let mut s = "((".to_owned();
            let l = render_node(left);
            s.append(l.as_str());
            s.append(") ");
            let o = cmp_text(op);
            s.append(o);
            s.append(" (");
            let rr = render_node(right);
            s.append(rr.as_str());
            s.append("))");
            s
        },
        BooleanExpression::Operation { left, op, right } => {
            let mut s = "((".to_owned();
            let l = render_bool(left);
            s.append(l.as_str());
            s.append(") ");
            let o = bool_op_text(op);
            s.append(o);
            s.append(" (");
            let rr = render_bool(right);
            s.append(rr.as_str());
            s.append("))");
            s
        },
    }
}

fn render_import_def(name: &String) -> (r: Option<&'static str>)
    ensures
        match r {
            Some(d) => spec_import_def(name@) == Some(d@),
            None => spec_import_def(name@) is None,
        },
{
    if *name == "max".to_owned() {
        Some("#[inline]\nfn import_max(a: f64, b: f64) -> f64 {\n    f64::max(a, b)\n}\n")
    } else if *name == "pow".to_owned() {
        Some("#[inline]\nfn import_pow(a: f64, b: f64) -> f64 {\n    f64::powf(a, b)\n}\n")
    } else {
        None
    }
}

fn render_imports(imports: &Vec<String>) -> (r: Result<String, BuildError>)
    ensures
        match r {
            Ok(text) => spec_render_imports(imports.deep_view(), 0) == Ok::<
                Seq<char>,
                BuildErrorView,
            >(text@),
            Err(e) => spec_render_imports(imports.deep_view(), 0) == Err::<
                Seq<char>,
                BuildErrorView,
            >(e.deep_view()),
        },
{
    let ghost iv = imports.deep_view();
    let mut s = String::new();
    let mut i: usize = 0;
    while i < imports.len()
        invariant
            i <= imports@.len(),
            iv == imports.deep_view(),
            iv.len() == imports@.len(),
            spec_render_imports(iv, 0) == (match spec_render_imports(iv, i as int) {
                Ok(rest) => Ok::<Seq<char>, BuildErrorView>(s@ + rest),
                Err(e) => Err::<Seq<char>, BuildErrorView>(e),
            }),
        decreases imports@.len() - i,
    {
        match render_import_def(&imports[i]) {
            None => {
                return Err(BuildError::UnsupportedBuiltin(imports[i].clone()));
            },
            Some(d) => {
                let ghost sv = s@;
                s.append(d);
                proof {
                    if let Ok(rest) = spec_render_imports(iv, i + 1) {
                        assert((sv + d@) + rest =~= sv + (d@ + rest));
                    }
                }
            },
        }
        i += 1;
    }
    proof {
        assert(s@ + Seq::<char>::empty() =~= s@);
    }
    Ok(s)
}

fn render_params(params: &Vec<String>) -> (r: String)
    ensures
        r@ == spec_render_params(params.deep_view(), 0),
{
    let ghost pv = params.deep_view();
    let mut s = String::new();
    let mut i: usize = 0;
    while i < params.len()
        invariant
            i <= params@.len(),
            pv == params.deep_view(),
            pv.len() == params@.len(),
            spec_render_params(pv, 0) == s@ + spec_render_params(pv, i as int),
        decreases params@.len() - i,
    {
        let ghost sv = s@;
        s.append(params[i].as_str());
        if i + 1 < params.len() {
            s.append(": f64, ");
        } else {
            s.append(": f64");
        }
        proof {
            lemma_render_params_step(pv, i as int, sv);
            if i + 1 < params@.len() {
                assert(s@ =~= sv + (pv[i as int] + ": f64, "@));
            } else {
                assert(s@ =~= sv + (pv[i as int] + ": f64"@));
            }
        }
        i += 1;
    }
    proof {
        assert(s@ + spec_render_params(pv, params@.len() as int) =~= s@);
    }
    s
}

impl Ast {
    /// Renders the tree into native source text.
    ///
    /// The text is exactly [`spec_code`] of the tree: deterministic, so two
    /// renderings of one tree are identical. It succeeds precisely when
    /// every imported builtin stands in the catalog; otherwise it fails with
    /// `UnsupportedBuiltin` at the first name outside it, in first-use
    /// order.
    pub fn code(&self) -> (r: Result<String, BuildError>)
        ensures
            match r {
                Ok(text) => spec_code(self.deep_view()) == Ok::<Seq<char>, BuildErrorView>(text@),
                Err(e) => spec_code(self.deep_view()) == Err::<Seq<char>, BuildErrorView>(
                    e.deep_view(),
                ),
            },
            r is Ok <==> all_imports_supported(self.deep_view().imports),
    {
        proof {
            lemma_render_imports_ok(self.deep_view().imports, 0);
        }
        let defs = match render_imports(self.imports()) {
            Ok(s) => s,
            Err(e) => {
                return Err(e);
            },
        };
        let mut out = defs;
        out.append("#[no_mangle]\npub fn ");
        out.append(self.name().as_str());
        out.append("(");
        let ps = render_params(self.parameters());
        out.append(ps.as_str());
        out.append(") -> f64 {\n    ");
        let body = render_node(self.root());
        out.append(body.as_str());
        out.append("\n}\n");
        Ok(out)
    }
}

} // verus!
