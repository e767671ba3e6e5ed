//! Code generation: exact rendered text, determinism, and the builtin
//! catalog boundary.

use math_expr::{Ast, BuildError};

fn build(name: &str, params: &[&str], input: &str) -> Ast {
    let params: Vec<String> = params.iter().map(|p| p.to_string()).collect();
    Ast::new(name.to_string(), &params, input).unwrap()
}

#[test]
fn constant_expression_renders_exactly() {
    let ast = build("expression", &[], "1 + 41");
    assert_eq!(
        ast.code().unwrap(),
        "#[no_mangle]\npub fn expression() -> f64 {\n    (1f64 + 41f64)\n}\n"
    );
}

#[test]
fn division_groups_before_addition() {
    let ast = build("expression", &[], "1 + 2 / 3");
    assert_eq!(
        ast.code().unwrap(),
        "#[no_mangle]\npub fn expression() -> f64 {\n    (1f64 + (2f64 / 3f64))\n}\n"
    );
}

#[test]
fn parameters_render_in_declared_order() {
    let ast = build("ndvi", &["a", "b"], "(a-b) / (a+b)");
    assert_eq!(
        ast.code().unwrap(),
        "#[no_mangle]\npub fn ndvi(a: f64, b: f64) -> f64 {\n    ((a - b) / (a + b))\n}\n"
    );
}

#[test]
fn max_import_renders_before_the_function() {
    let ast = build("f", &["a"], "max(a, 0)");
    assert_eq!(
        ast.code().unwrap(),
        "#[inline]\nfn import_max(a: f64, b: f64) -> f64 {\n    f64::max(a, b)\n}\n\
         #[no_mangle]\npub fn f(a: f64) -> f64 {\n    import_max(a, 0f64)\n}\n"
    );
}

#[test]
fn power_renders_as_pow_call() {
    let ast = build("f", &[], "2**4");
    assert_eq!(
        ast.code().unwrap(),
        "#[inline]\nfn import_pow(a: f64, b: f64) -> f64 {\n    f64::powf(a, b)\n}\n\
         #[no_mangle]\npub fn f() -> f64 {\n    import_pow(2f64, 4f64)\n}\n"
    );
}

#[test]
fn pow_helper_is_emitted_once_for_many_uses() {
    let ast = build("f", &[], "2**4 + 2**3");
    let code = ast.code().unwrap();
    assert_eq!(code.matches("fn import_pow").count(), 1);
}

#[test]
fn branch_renders_as_if_else_chain() {
    let ast = build("f", &[], "if true { 1 } else if false { 2 } else { 1 + 2 }");
    assert_eq!(
        ast.code().unwrap(),
        "#[no_mangle]\npub fn f() -> f64 {\n    \
         if true { 1f64 } else if false { 2f64 } else { (1f64 + 2f64) }\n}\n"
    );
}

#[test]
fn comparison_renders_parenthesized() {
    let ast = build("f", &[], "if 1 < 2 { 1 } else { 2 }");
    assert_eq!(
        ast.code().unwrap(),
        "#[no_mangle]\npub fn f() -> f64 {\n    \
         if ((1f64) < (2f64)) { 1f64 } else { 2f64 }\n}\n"
    );
}

#[test]
fn boolean_operators_render_parenthesized() {
    let ast = build("f", &[], "if true && false { 1 } else { 2 }");
    assert_eq!(
        ast.code().unwrap(),
        "#[no_mangle]\npub fn f() -> f64 {\n    \
         if ((true) && (false)) { 1f64 } else { 2f64 }\n}\n"
    );
}

#[test]
fn assignments_render_as_let_bindings() {
    let ast = build("f", &["a"], "x = a + 1; x * x");
    assert_eq!(
        ast.code().unwrap(),
        "#[no_mangle]\npub fn f(a: f64) -> f64 {\n    \
         let x = (a + 1f64);\n    (x * x)\n}\n"
    );
}

#[test]
fn code_is_deterministic() {
    let ast = build("f", &["a", "b"], "max(a, b) ** 2 + 1");
    let first = ast.code().unwrap();
    let second = ast.code().unwrap();
    assert_eq!(first, second);
}

#[test]
fn unsupported_builtin_fails_at_code_generation() {
    let ast = build("f", &["a"], "foo(a)");
    assert_eq!(
        ast.code().unwrap_err(),
        BuildError::UnsupportedBuiltin("foo".to_string())
    );
}

#[test]
fn first_unsupported_import_is_reported() {
    let ast = build("f", &["a"], "max(bar(a), baz(a))");
    assert_eq!(
        ast.code().unwrap_err(),
        BuildError::UnsupportedBuiltin("bar".to_string())
    );
}
