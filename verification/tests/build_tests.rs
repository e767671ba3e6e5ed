//! Building expressions: parsing, binding checks, and error cases.

use math_expr::{Ast, AstNode, AstOperator, BooleanComparator, BooleanExpression, BuildError};

/// Reference evaluation of a built tree against bound parameter values.
fn eval(node: &AstNode, env: &mut Vec<(String, f64)>) -> f64 {
    match node {
        AstNode::Constant(text) => text.parse::<f64>().unwrap(),
        AstNode::Variable(name) => {
            let (_, v) = env
                .iter()
                .rev()
                .find(|(n, _)| n == name)
                .expect("unbound variable in evaluation");
            *v
        }
        AstNode::Operation { left, op, right } => {
            let l = eval(left, env);
            let r = eval(right, env);
            match op {
                AstOperator::Add => l + r,
                AstOperator::Subtract => l - r,
                AstOperator::Multiply => l * r,
                AstOperator::Divide => l / r,
            }
        }
        AstNode::Function { name, args } => {
            let values: Vec<f64> = args.iter().map(|a| eval(a, env)).collect();
            match name.as_str() {
                "max" => f64::max(values[0], values[1]),
                "pow" => f64::powf(values[0], values[1]),
                other => panic!("builtin {} not in the evaluation catalog", other),
            }
        }
        AstNode::Branch {
            condition_branches,
            else_branch,
        } => {
            for arm in condition_branches {
                if eval_bool(&arm.condition, env) {
                    return eval(&arm.body, env);
                }
            }
            eval(else_branch, env)
        }
        AstNode::AssignmentsAndExpression {
            assignments,
            expression,
        } => {
            for a in assignments {
                let v = eval(&a.expression, env);
                env.push((a.identifier.clone(), v));
            }
            eval(expression, env)
        }
    }
}

fn eval_bool(b: &BooleanExpression, env: &mut Vec<(String, f64)>) -> bool {
    match b {
        BooleanExpression::Constant(v) => *v,
        BooleanExpression::Comparison { left, op, right } => {
            let l = eval(left, env);
            let r = eval(right, env);
            match op {
                BooleanComparator::Equal => l == r,
                BooleanComparator::NotEqual => l != r,
                BooleanComparator::LessThan => l < r,
                BooleanComparator::LessThanOrEqual => l <= r,
                BooleanComparator::GreaterThan => l > r,
                BooleanComparator::GreaterThanOrEqual => l >= r,
            }
        }
        BooleanExpression::Operation { left, op, right } => {
            let l = eval_bool(left, env);
            let r = eval_bool(right, env);
            match op {
                math_expr::BooleanOperator::And => l && r,
                math_expr::BooleanOperator::Or => l || r,
            }
        }
    }
}

fn build(name: &str, params: &[&str], input: &str) -> Result<Ast, BuildError> {
    let params: Vec<String> = params.iter().map(|p| p.to_string()).collect();
    Ast::new(name.to_string(), &params, input)
}

fn eval_with(ast: &Ast, bindings: &[(&str, f64)]) -> f64 {
    let mut env: Vec<(String, f64)> = bindings
        .iter()
        .map(|(n, v)| (n.to_string(), *v))
        .collect();
    eval(ast.root(), &mut env)
}

#[test]
fn constant_expression_evaluates_directly() {
    let ast = build("expression", &[], "1 + 2 / 3").unwrap();
    assert_eq!(eval_with(&ast, &[]), 1.0 + 2.0 / 3.0);
}

#[test]
fn two_parameter_expression_matches_reference_formula() {
    let ast = build("ndvi", &["a", "b"], "(a-b) / (a+b)").unwrap();
    assert_eq!(eval_with(&ast, &[("a", 2.0), ("b", 3.0)]), -0.2);
}

#[test]
fn max_builtin_evaluates() {
    let ast = build("f", &["a"], "max(a, 0)").unwrap();
    assert_eq!(eval_with(&ast, &[("a", -5.0)]), 0.0);
    assert_eq!(eval_with(&ast, &[("a", 7.0)]), 7.0);
}

#[test]
fn power_desugars_to_pow() {
    let ast = build("f", &[], "2**4").unwrap();
    assert_eq!(eval_with(&ast, &[]), 16.0);
    assert_eq!(ast.imports().as_slice(), &["pow".to_string()]);
}

#[test]
fn repeated_power_imports_pow_once() {
    let ast = build("f", &[], "2**4 + 3**2 * 2**1").unwrap();
    assert_eq!(ast.imports().as_slice(), &["pow".to_string()]);
}

#[test]
fn power_is_right_associative() {
    let ast = build("f", &[], "2**3**2").unwrap();
    assert_eq!(eval_with(&ast, &[]), 512.0);
}

#[test]
fn unknown_identifier_fails() {
    let err = build("f", &[], "a + 1").unwrap_err();
    assert_eq!(err, BuildError::UnknownIdentifier("a".to_string()));
}

#[test]
fn assign_to_parameter_fails() {
    let err = build("f", &["a"], "a = 1; a").unwrap_err();
    assert_eq!(err, BuildError::AssignToParameter("a".to_string()));
}

#[test]
fn branch_without_terminal_else_fails() {
    let err = build("f", &[], "if true { 1 }").unwrap_err();
    assert_eq!(err, BuildError::MalformedBranch);
}

#[test]
fn else_if_chain_without_terminal_else_fails() {
    let err = build("f", &[], "if true { 1 } else if false { 2 }").unwrap_err();
    assert_eq!(err, BuildError::MalformedBranch);
}

#[test]
fn assignments_bind_variables_in_order() {
    let ast = build("f", &["a"], "x = a + 1; y = x * 2; y + x").unwrap();
    assert_eq!(
        ast.variables().as_slice(),
        &["x".to_string(), "y".to_string()]
    );
    assert_eq!(eval_with(&ast, &[("a", 3.0)]), 12.0);
}

#[test]
fn branch_chain_picks_first_true_condition() {
    let ast = build(
        "f",
        &["a"],
        "if a < 0 { 0 - a } else if a == 0 { 42 } else { a }",
    )
    .unwrap();
    assert_eq!(eval_with(&ast, &[("a", -3.0)]), 3.0);
    assert_eq!(eval_with(&ast, &[("a", 0.0)]), 42.0);
    assert_eq!(eval_with(&ast, &[("a", 5.0)]), 5.0);
}

#[test]
fn and_binds_looser_than_or() {
    // `false && true || true` groups as `false && (true || true)` in this
    // language, which is false.
    let ast = build("f", &[], "if false && true || true { 1 } else { 2 }").unwrap();
    assert_eq!(eval_with(&ast, &[]), 2.0);
}

#[test]
fn parenthesized_boolean_condition_builds() {
    let ast = build("f", &[], "if (1 < 2) && true { 1 } else { 2 }").unwrap();
    assert_eq!(eval_with(&ast, &[]), 1.0);
}

#[test]
fn comparison_of_expressions_builds() {
    let ast = build("f", &[], "if 1 + 5 < 3 - 1 { 2 } else { 1 + 2 }").unwrap();
    assert_eq!(eval_with(&ast, &[]), 3.0);
}

#[test]
fn parse_error_reports_position() {
    let err = build("f", &[], "1 + $").unwrap_err();
    match err {
        BuildError::Parse { position, .. } => assert_eq!(position, 4),
        other => panic!("expected a parse error, got {:?}", other),
    }
}

#[test]
fn trailing_text_is_a_parse_error() {
    let err = build("f", &[], "1 2").unwrap_err();
    assert!(matches!(err, BuildError::Parse { .. }));
}

#[test]
fn bare_boolean_in_arithmetic_position_fails() {
    let err = build("f", &[], "true + 1").unwrap_err();
    assert!(matches!(err, BuildError::Parse { .. }));
}

#[test]
fn non_boolean_condition_is_malformed() {
    let err = build("f", &["x"], "if x { 1 } else { 2 }").unwrap_err();
    assert_eq!(err, BuildError::MalformedBooleanExpression);
}

#[test]
fn fractional_literals_build() {
    let ast = build("f", &[], "1.5 * 2.25").unwrap();
    assert_eq!(eval_with(&ast, &[]), 1.5 * 2.25);
}

#[test]
fn unsupported_builtin_parses_but_is_imported() {
    let ast = build("f", &["a"], "foo(a)").unwrap();
    assert_eq!(ast.imports().as_slice(), &["foo".to_string()]);
}

#[test]
fn call_arguments_share_the_import_list() {
    let ast = build("f", &["a"], "max(max(a, 0), pow(a, 2))").unwrap();
    assert_eq!(
        ast.imports().as_slice(),
        &["max".to_string(), "pow".to_string()]
    );
}
