//! Recursive-descent construction of the syntax tree from tokens.
//!
//! Two families of mutually recursive parsers climb the precedence tiers of
//! the grammar: the arithmetic family (`expr` over `term` over `factor` over
//! `unary`) and the boolean family (`bool_expr` over `bool_term` over
//! `bool_factor` over `comparison`). In this language `&&` binds looser than
//! `||`. Binding state (`variables`, `imports`) is threaded through the
//! descent as a value and returned updated, so an abandoned parse attempt
//! leaves no trace.
//!
//! Every executable parser returns exactly what its spec-level twin
//! (`spec_parse_*`) returns, so the whole build of an [`Ast`] is pinned by
//! [`spec_build`].

use vstd::prelude::*;

use crate::ast::{
    assignments_view, branches_view, nodes_view, Assignment, AssignmentView, Ast, AstNode,
    AstNodeView, AstOperator, AstView, BooleanComparator, BooleanExpression,
    BooleanExpressionView, BooleanOperator, Branch, BranchView,
};
use crate::error::{BuildError, BuildErrorView};
use crate::token::{spec_tokenize, tokenize, Token, TokenKind, TokenKindView, TokenView};

verus! {

/// The binding state threaded through one build pass: the variables assigned
/// so far and the builtin names referenced so far (in reference order, with
/// repetitions; they are deduplicated when the [`Ast`] is assembled).
#[derive(Debug)]
pub struct BuildState {
    pub variables: Vec<String>,
    pub imports: Vec<String>,
}

/// The mathematical image of a [`BuildState`].
pub struct StateView {
    pub variables: Seq<Seq<char>>,
    pub imports: Seq<Seq<char>>,
}

impl DeepView for BuildState {
    type V = StateView;

    open spec fn deep_view(&self) -> StateView {
        StateView { variables: self.variables.deep_view(), imports: self.imports.deep_view() }
    }
}

/// The empty binding state.
pub open spec fn empty_state() -> StateView {
    StateView { variables: Seq::empty(), imports: Seq::empty() }
}

/// The state with one more referenced builtin name.
pub open spec fn with_import(st: StateView, name: Seq<char>) -> StateView {
    StateView { variables: st.variables, imports: st.imports.push(name) }
}

/// The state with one more assigned variable.
pub open spec fn with_variable(st: StateView, name: Seq<char>) -> StateView {
    StateView { variables: st.variables.push(name), imports: st.imports }
}

/// The token kind standing at `pos`; the sentinel `End` when `pos` is out of
/// range.
pub open spec fn kind_at(toks: Seq<TokenView>, pos: int) -> TokenKindView {
    if 0 <= pos < toks.len() {
        toks[pos].kind
    } else {
        TokenKindView::End
    }
}

/// The character position of the token standing at `pos`.
pub open spec fn pos_of(toks: Seq<TokenView>, pos: int) -> int {
    if 0 <= pos < toks.len() {
        toks[pos].position
    } else {
        0
    }
}

/// A syntax error at the token standing at `pos`.
pub open spec fn perr(toks: Seq<TokenView>, pos: int, expected: Seq<char>) -> BuildErrorView {
    BuildErrorView::Parse { position: pos_of(toks, pos), expected }
}

/// The comparison operator denoted by a token kind, if any.
pub open spec fn comparator_of(k: TokenKindView) -> Option<BooleanComparator> {
    match k {
        TokenKindView::EqEq => Some(BooleanComparator::Equal),
        TokenKindView::NotEq => Some(BooleanComparator::NotEqual),
        TokenKindView::Lt => Some(BooleanComparator::LessThan),
        TokenKindView::Le => Some(BooleanComparator::LessThanOrEqual),
        TokenKindView::Gt => Some(BooleanComparator::GreaterThan),
        TokenKindView::Ge => Some(BooleanComparator::GreaterThanOrEqual),
        _ => None,
    }
}

/// `expr := term (("+"|"-") term)*`, left-associative.
pub open spec fn spec_parse_expr(
    toks: Seq<TokenView>,
    pos: int,
    params: Seq<Seq<char>>,
    st: StateView,
) -> Result<(AstNodeView, int, StateView), BuildErrorView>
    decreases toks.len() - pos, 4int,
{
    match spec_parse_term(toks, pos, params, st) {
        Err(e) => Err(e),
        Ok((n, p, st1)) => {
            if pos < p <= toks.len() {
                spec_parse_expr_more(toks, p, params, st1, n)
            } else {
                Err(perr(toks, pos, "an expression"@))
            }
        },
    }
}

/// The left-associative tail of `expr`: zero or more `("+"|"-") term`
/// steps folded onto `left`.
pub open spec fn spec_parse_expr_more(
    toks: Seq<TokenView>,
    pos: int,
    params: Seq<Seq<char>>,
    st: StateView,
    left: AstNodeView,
) -> Result<(AstNodeView, int, StateView), BuildErrorView>
    decreases toks.len() - pos, 0int,
{
    let k = kind_at(toks, pos);
    if k is Plus || k is Minus {
        let op = if k is Plus {
            AstOperator::Add
        } else {
            AstOperator::Subtract
        };
        match spec_parse_term(toks, pos + 1, params, st) {
            Err(e) => Err(e),
            Ok((rhs, p, st1)) => {
                let node = AstNodeView::Operation {
                    left: Box::new(left),
                    op,
                    right: Box::new(rhs),
                };
                if pos < p <= toks.len() {
                    spec_parse_expr_more(toks, p, params, st1, node)
                } else {
                    Err(perr(toks, pos, "an expression"@))
                }
            },
        }
    } else {
        Ok((left, pos, st))
    }
}

/// `term := factor (("*"|"/") factor)*`, left-associative.
pub open spec fn spec_parse_term(
    toks: Seq<TokenView>,
    pos: int,
    params: Seq<Seq<char>>,
    st: StateView,
) -> Result<(AstNodeView, int, StateView), BuildErrorView>
    decreases toks.len() - pos, 3int,
{
    match spec_parse_factor(toks, pos, params, st) {
        Err(e) => Err(e),
        Ok((n, p, st1)) => {
            if pos < p <= toks.len() {
                spec_parse_term_more(toks, p, params, st1, n)
            } else {
                Err(perr(toks, pos, "an expression"@))
            }
        },
    }
}

/// The left-associative tail of `term`: zero or more `("*"|"/") factor`
/// steps folded onto `left`.
pub open spec fn spec_parse_term_more(
    toks: Seq<TokenView>,
    pos: int,
    params: Seq<Seq<char>>,
    st: StateView,
    left: AstNodeView,
) -> Result<(AstNodeView, int, StateView), BuildErrorView>
    decreases toks.len() - pos, 0int,
{
    let k = kind_at(toks, pos);
    if k is Star || k is Slash {
        let op = if k is Star {
            AstOperator::Multiply
        } else {
            AstOperator::Divide
        };
        match spec_parse_factor(toks, pos + 1, params, st) {
            Err(e) => Err(e),
            Ok((rhs, p, st1)) => {
                let node = AstNodeView::Operation {
                    left: Box::new(left),
                    op,
                    right: Box::new(rhs),
                };
                if pos < p <= toks.len() {
                    spec_parse_term_more(toks, p, params, st1, node)
                } else {
                    Err(perr(toks, pos, "an expression"@))
                }
            },
        }
    } else {
        Ok((left, pos, st))
    }
}

/// `factor := unary ("**" factor)?`, right-associative. The `**` operator
/// desugars into a call of the builtin `pow`, which is registered as an
/// import.
pub open spec fn spec_parse_factor(
    toks: Seq<TokenView>,
    pos: int,
    params: Seq<Seq<char>>,
    st: StateView,
) -> Result<(AstNodeView, int, StateView), BuildErrorView>
    decreases toks.len() - pos, 2int,
{
    match spec_parse_unary(toks, pos, params, st) {
        Err(e) => Err(e),
        Ok((base, p, st1)) => {
            if kind_at(toks, p) is Power && pos <= p {
                match spec_parse_factor(toks, p + 1, params, st1) {
                    Err(e) => Err(e),
                    Ok((rhs, p2, st2)) => Ok(
                        (
                            AstNodeView::Function { name: "pow"@, args: seq![base, rhs] },
                            p2,
                            with_import(st2, "pow"@),
                        ),
                    ),
                }
            } else {
                Ok((base, p, st1))
            }
        },
    }
}

/// `unary := number | identifier | func_call | "(" expr ")" | branch`.
///
/// An identifier leaf resolves against the parameters and the variables
/// assigned so far, or the build fails with `UnknownIdentifier`. A call
/// registers its head name as an import after its arguments are built.
pub open spec fn spec_parse_unary(
    toks: Seq<TokenView>,
    pos: int,
    params: Seq<Seq<char>>,
    st: StateView,
) -> Result<(AstNodeView, int, StateView), BuildErrorView>
    decreases toks.len() - pos, 1int,
{
    match kind_at(toks, pos) {
        TokenKindView::Number(text) => Ok((AstNodeView::Constant(text), pos + 1, st)),
        TokenKindView::Ident(name) => {
            if kind_at(toks, pos + 1) is LParen {
                if kind_at(toks, pos + 2) is RParen {
                    Ok(
                        (
                            AstNodeView::Function { name, args: Seq::empty() },
                            pos + 3,
                            with_import(st, name),
                        ),
                    )
                } else {
                    match spec_parse_args(toks, pos + 2, params, st) {
                        Err(e) => Err(e),
                        Ok((args, p, st1)) => {
                            if kind_at(toks, p) is RParen {
                                Ok(
                                    (
                                        AstNodeView::Function { name, args },
                                        p + 1,
                                        with_import(st1, name),
                                    ),
                                )
                            } else {
                                Err(perr(toks, p, ")"@))
                            }
                        },
                    }
                }
            } else if params.contains(name) || st.variables.contains(name) {
                Ok((AstNodeView::Variable(name), pos + 1, st))
            } else {
                Err(BuildErrorView::UnknownIdentifier(name))
            }
        },
        TokenKindView::LParen => {
            match spec_parse_expr(toks, pos + 1, params, st) {
                Err(e) => Err(e),
                Ok((n, p, st1)) => {
                    if kind_at(toks, p) is RParen {
                        Ok((n, p + 1, st1))
                    } else {
                        Err(perr(toks, p, ")"@))
                    }
                },
            }
        },
        TokenKindView::KwIf => spec_parse_branch(toks, pos, params, st),
        _ => Err(perr(toks, pos, "an expression"@)),
    }
}

/// The comma-separated argument list of a call, one `expr` or more.
pub open spec fn spec_parse_args(
    toks: Seq<TokenView>,
    pos: int,
    params: Seq<Seq<char>>,
    st: StateView,
) -> Result<(Seq<AstNodeView>, int, StateView), BuildErrorView>
    decreases toks.len() - pos, 5int,
{
    match spec_parse_expr(toks, pos, params, st) {
        Err(e) => Err(e),
        Ok((n, p, st1)) => {
            if kind_at(toks, p) is Comma && pos <= p {
                match spec_parse_args(toks, p + 1, params, st1) {
                    Err(e) => Err(e),
                    Ok((rest, p2, st2)) => Ok((seq![n] + rest, p2, st2)),
                }
            } else {
                Ok((seq![n], p, st1))
            }
        },
    }
}

/// `branch := "if" bool_expr "{" expr "}" tail`, where the tail holds the
/// `else if` arms and the mandatory terminal `else`.
pub open spec fn spec_parse_branch(
    toks: Seq<TokenView>,
    pos: int,
    params: Seq<Seq<char>>,
    st: StateView,
) -> Result<(AstNodeView, int, StateView), BuildErrorView>
    decreases toks.len() - pos, 0int,
{
    if kind_at(toks, pos) is KwIf {
        match spec_parse_bool_expr(toks, pos + 1, params, st) {
            Err(e) => Err(e),
            Ok((cond, p, st1)) => {
                if kind_at(toks, p) is LBrace && pos <= p {
                    match spec_parse_expr(toks, p + 1, params, st1) {
                        Err(e) => Err(e),
                        Ok((body, p2, st2)) => {
                            if kind_at(toks, p2) is RBrace && pos <= p2 {
                                spec_parse_branch_tail(
                                    toks,
                                    p2 + 1,
                                    params,
                                    st2,
                                    seq![BranchView { condition: cond, body }],
                                )
                            } else {
                                Err(perr(toks, p2, "}"@))
                            }
                        },
                    }
                } else {
                    Err(perr(toks, p, "{"@))
                }
            },
        }
    } else {
        Err(perr(toks, pos, "if"@))
    }
}

/// The continuation of a branch chain after one arm: more `else if` arms,
/// then the terminal `else { expr }`. A chain that stops without the
/// terminal `else` is a `MalformedBranch`.
pub open spec fn spec_parse_branch_tail(
    toks: Seq<TokenView>,
    pos: int,
    params: Seq<Seq<char>>,
    st: StateView,
    arms: Seq<BranchView>,
) -> Result<(AstNodeView, int, StateView), BuildErrorView>
    decreases toks.len() - pos, 0int,
{
    if kind_at(toks, pos) is KwElse {
        if kind_at(toks, pos + 1) is KwIf {
            match spec_parse_bool_expr(toks, pos + 2, params, st) {
                Err(e) => Err(e),
                Ok((cond, p, st1)) => {
                    if kind_at(toks, p) is LBrace && pos <= p {
                        match spec_parse_expr(toks, p + 1, params, st1) {
                            Err(e) => Err(e),
                            Ok((body, p2, st2)) => {
                                if kind_at(toks, p2) is RBrace && pos <= p2 {
                                    spec_parse_branch_tail(
                                        toks,
                                        p2 + 1,
                                        params,
                                        st2,
                                        arms.push(BranchView { condition: cond, body }),
                                    )
                                } else {
                                    Err(perr(toks, p2, "}"@))
                                }
                            },
                        }
                    } else {
                        Err(perr(toks, p, "{"@))
                    }
                },
            }
        } else if kind_at(toks, pos + 1) is LBrace {
            match spec_parse_expr(toks, pos + 2, params, st) {
                Err(e) => Err(e),
                Ok((els, p, st1)) => {
                    if kind_at(toks, p) is RBrace {
                        Ok(
                            (
                                AstNodeView::Branch {
                                    condition_branches: arms,
                                    else_branch: Box::new(els),
                                },
                                p + 1,
                                st1,
                            ),
                        )
                    } else {
                        Err(perr(toks, p, "}"@))
                    }
                },
            }
        } else {
            Err(perr(toks, pos + 1, "if or {"@))
        }
    } else {
        Err(BuildErrorView::MalformedBranch)
    }
}

/// `bool_expr := bool_term ("&&" bool_term)*`; in this grammar `&&` binds
/// looser than `||`.
pub open spec fn spec_parse_bool_expr(
    toks: Seq<TokenView>,
    pos: int,
    params: Seq<Seq<char>>,
    st: StateView,
) -> Result<(BooleanExpressionView, int, StateView), BuildErrorView>
    decreases toks.len() - pos, 8int,
{
    match spec_parse_bool_term(toks, pos, params, st) {
        Err(e) => Err(e),
        Ok((b, p, st1)) => {
            if pos < p <= toks.len() {
                spec_parse_bool_expr_more(toks, p, params, st1, b)
            } else {
                Err(perr(toks, pos, "a boolean expression"@))
            }
        },
    }
}

/// The left-associative tail of `bool_expr`: zero or more `"&&" bool_term`
/// steps folded onto `left`.
pub open spec fn spec_parse_bool_expr_more(
    toks: Seq<TokenView>,
    pos: int,
    params: Seq<Seq<char>>,
    st: StateView,
    left: BooleanExpressionView,
) -> Result<(BooleanExpressionView, int, StateView), BuildErrorView>
    decreases toks.len() - pos, 0int,
{
    if kind_at(toks, pos) is AndAnd {
        match spec_parse_bool_term(toks, pos + 1, params, st) {
            Err(e) => Err(e),
            Ok((rhs, p, st1)) => {
                let node = BooleanExpressionView::Operation {
                    left: Box::new(left),
                    op: BooleanOperator::And,
                    right: Box::new(rhs),
                };
                if pos < p <= toks.len() {
                    spec_parse_bool_expr_more(toks, p, params, st1, node)
                } else {
                    Err(perr(toks, pos, "a boolean expression"@))
                }
            },
        }
    } else {
        Ok((left, pos, st))
    }
}

/// `bool_term := bool_factor ("||" bool_factor)*`.
pub open spec fn spec_parse_bool_term(
    toks: Seq<TokenView>,
    pos: int,
    params: Seq<Seq<char>>,
    st: StateView,
) -> Result<(BooleanExpressionView, int, StateView), BuildErrorView>
    decreases toks.len() - pos, 7int,
{
    match spec_parse_bool_factor(toks, pos, params, st) {
        Err(e) => Err(e),
        Ok((b, p, st1)) => {
            if pos < p <= toks.len() {
                spec_parse_bool_term_more(toks, p, params, st1, b)
            } else {
                Err(perr(toks, pos, "a boolean expression"@))
            }
        },
    }
}

/// The left-associative tail of `bool_term`: zero or more `"||" bool_factor`
/// steps folded onto `left`.
pub open spec fn spec_parse_bool_term_more(
    toks: Seq<TokenView>,
    pos: int,
    params: Seq<Seq<char>>,
    st: StateView,
    left: BooleanExpressionView,
) -> Result<(BooleanExpressionView, int, StateView), BuildErrorView>
    decreases toks.len() - pos, 0int,
{
    if kind_at(toks, pos) is OrOr {
        match spec_parse_bool_factor(toks, pos + 1, params, st) {
            Err(e) => Err(e),
            Ok((rhs, p, st1)) => {
                let node = BooleanExpressionView::Operation {
                    left: Box::new(left),
                    op: BooleanOperator::Or,
                    right: Box::new(rhs),
                };
                if pos < p <= toks.len() {
                    spec_parse_bool_term_more(toks, p, params, st1, node)
                } else {
                    Err(perr(toks, pos, "a boolean expression"@))
                }
            },
        }
    } else {
        Ok((left, pos, st))
    }
}

/// `bool_factor := "true" | "false" | comparison | "(" bool_expr ")"`.
///
/// A comparison is tried first; when it fails on syntax alone and the factor
/// starts with `(`, the parenthesized boolean reading is taken instead, with
/// the binding state from before the abandoned attempt. A factor that fits
/// neither reading is a `MalformedBooleanExpression`.
pub open spec fn spec_parse_bool_factor(
    toks: Seq<TokenView>,
    pos: int,
    params: Seq<Seq<char>>,
    st: StateView,
) -> Result<(BooleanExpressionView, int, StateView), BuildErrorView>
    decreases toks.len() - pos, 6int,
{
    match kind_at(toks, pos) {
        TokenKindView::KwTrue => Ok((BooleanExpressionView::Constant(true), pos + 1, st)),
        TokenKindView::KwFalse => Ok((BooleanExpressionView::Constant(false), pos + 1, st)),
        _ => {
            match spec_parse_comparison(toks, pos, params, st) {
                Ok(r) => Ok(r),
                Err(e) => {
                    if e is Parse {
                        if kind_at(toks, pos) is LParen {
                            match spec_parse_bool_expr(toks, pos + 1, params, st) {
                                Err(e2) => Err(e2),
                                Ok((b, p, st1)) => {
                                    if kind_at(toks, p) is RParen {
                                        Ok((b, p + 1, st1))
                                    } else {
                                        Err(perr(toks, p, ")"@))
                                    }
                                },
                            }
                        } else {
                            Err(BuildErrorView::MalformedBooleanExpression)
                        }
                    } else {
                        Err(e)
                    }
                },
            }
        },
    }
}

/// `comparison := expr ("=="|"!="|"<"|"<="|">"|">=") expr`.
pub open spec fn spec_parse_comparison(
    toks: Seq<TokenView>,
    pos: int,
    params: Seq<Seq<char>>,
    st: StateView,
) -> Result<(BooleanExpressionView, int, StateView), BuildErrorView>
    decreases toks.len() - pos, 5int,
{
    match spec_parse_expr(toks, pos, params, st) {
        Err(e) => Err(e),
        Ok((l, p, st1)) => {
            match comparator_of(kind_at(toks, p)) {
                Some(op) => {
                    if pos <= p < toks.len() {
                        match spec_parse_expr(toks, p + 1, params, st1) {
                            Err(e) => Err(e),
                            Ok((r, p2, st2)) => Ok(
                                (
                                    BooleanExpressionView::Comparison {
                                        left: Box::new(l),
                                        op,
                                        right: Box::new(r),
                                    },
                                    p2,
                                    st2,
                                ),
                            ),
                        }
                    } else {
                        Err(perr(toks, p, "a comparison operator"@))
                    }
                },
                None => Err(perr(toks, p, "a comparison operator"@)),
            }
        },
    }
}

/// `main := (identifier "=" expr ";")* expr`.
///
/// Each assignment must not target a parameter (`AssignToParameter`); its
/// name becomes visible to everything built after it, including the
/// assignment's own value expression. The root is always an
/// `AssignmentsAndExpression` node, with an empty assignment list when the
/// source holds none.
pub open spec fn spec_parse_main(
    toks: Seq<TokenView>,
    pos: int,
    params: Seq<Seq<char>>,
    st: StateView,
    acc: Seq<AssignmentView>,
) -> Result<(AstNodeView, int, StateView), BuildErrorView>
    decreases toks.len() - pos, 9int,
{
    if kind_at(toks, pos) is Ident && kind_at(toks, pos + 1) is Assign {
        let name = kind_at(toks, pos)->Ident_0;
        if params.contains(name) {
            Err(BuildErrorView::AssignToParameter(name))
        } else {
            match spec_parse_expr(toks, pos + 2, params, with_variable(st, name)) {
                Err(e) => Err(e),
                Ok((value, p, st1)) => {
                    if kind_at(toks, p) is Semicolon && pos <= p {
                        spec_parse_main(
                            toks,
                            p + 1,
                            params,
                            st1,
                            acc.push(AssignmentView { identifier: name, expression: value }),
                        )
                    } else {
                        Err(perr(toks, p, ";"@))
                    }
                },
            }
        }
    } else {
        match spec_parse_expr(toks, pos, params, st) {
            Err(e) => Err(e),
            Ok((n, p, st1)) => Ok(
                (
                    AstNodeView::AssignmentsAndExpression {
                        assignments: acc,
                        expression: Box::new(n),
                    },
                    p,
                    st1,
                ),
            ),
        }
    }
}

/// The referenced builtin names with later repetitions dropped, from
/// position `i` on: a name is kept exactly when it has no earlier
/// occurrence.
pub open spec fn dedup_first_from(s: Seq<Seq<char>>, i: int) -> Seq<Seq<char>>
    decreases s.len() - i,
{
    if i < 0 || i >= s.len() {
        Seq::empty()
    } else if s.subrange(0, i).contains(s[i]) {
        dedup_first_from(s, i + 1)
    } else {
        seq![s[i]] + dedup_first_from(s, i + 1)
    }
}

/// The sequence with later repetitions dropped: each element kept at its
/// first occurrence, in order.
pub open spec fn dedup_first(s: Seq<Seq<char>>) -> Seq<Seq<char>> {
    dedup_first_from(s, 0)
}

/// A token list fit for parsing: nonempty, ending in the `End` sentinel.
pub open spec fn wf_tokens(toks: Seq<TokenView>) -> bool {
    toks.len() >= 1 && toks[toks.len() - 1].kind is End
}

/// The executable result of an arithmetic parse step matches its spec-level
/// image.
pub open spec fn node_result_matches(
    r: Result<(AstNode, usize, BuildState), BuildError>,
    s: Result<(AstNodeView, int, StateView), BuildErrorView>,
) -> bool {
    match r {
        Ok(t) => s matches Ok(sv) && sv.0 == t.0.deep_view() && sv.1 == t.1 as int && sv.2
            == t.2.deep_view(),
        Err(e) => s matches Err(ev) && ev == e.deep_view(),
    }
}

/// The executable result of a boolean parse step matches its spec-level
/// image.
pub open spec fn bool_result_matches(
    r: Result<(BooleanExpression, usize, BuildState), BuildError>,
    s: Result<(BooleanExpressionView, int, StateView), BuildErrorView>,
) -> bool {
    match r {
        Ok(t) => s matches Ok(sv) && sv.0 == t.0.deep_view() && sv.1 == t.1 as int && sv.2
            == t.2.deep_view(),
        Err(e) => s matches Err(ev) && ev == e.deep_view(),
    }
}

/// The executable result of an argument-list parse step matches its
/// spec-level image.
pub open spec fn args_result_matches(
    r: Result<(Vec<AstNode>, usize, BuildState), BuildError>,
    s: Result<(Seq<AstNodeView>, int, StateView), BuildErrorView>,
) -> bool {
    match r {
        Ok(t) => s matches Ok(sv) && sv.0 == t.0.deep_view() && sv.1 == t.1 as int && sv.2
            == t.2.deep_view(),
        Err(e) => s matches Err(ev) && ev == e.deep_view(),
    }
}

/// The whole build of an [`Ast`] from source text: scan, parse the
/// assignment sequence and final expression, demand that nothing but the end
/// sentinel follows, and assemble the tree with its deduplicated imports.
pub open spec fn spec_build(
    name: Seq<char>,
    params: Seq<Seq<char>>,
    input: Seq<char>,
) -> Result<AstView, BuildErrorView> {
    match spec_tokenize(input) {
        Err(e) => Err(e),
        Ok(toks) => match spec_parse_main(toks, 0, params, empty_state(), Seq::empty()) {
            Err(e) => Err(e),
            Ok((root, p, st)) => {
                if kind_at(toks, p) is End {
                    Ok(
                        AstView {
                            name,
                            root,
                            parameters: params,
                            variables: st.variables,
                            imports: dedup_first(st.imports),
                        },
                    )
                } else {
                    Err(perr(toks, p, "end of input"@))
                }
            },
        },
    }
}

/// No element occurs twice.
pub open spec fn distinct_names(s: Seq<Seq<char>>) -> bool {
    forall|i: int, j: int| 0 <= i < j < s.len() ==> s[i] != s[j]
}

/// Nothing with an occurrence before `i` is in the deduplication from `i`
/// on.
proof fn lemma_dedup_first_excludes(s: Seq<Seq<char>>, i: int, x: Seq<char>)
    requires
        0 <= i,
        s.subrange(0, if i <= s.len() {
            i
        } else {
            s.len() as int
        }).contains(x),
    ensures
        !dedup_first_from(s, i).contains(x),
    decreases s.len() - i,
{
    if i < s.len() {
        assert(s.subrange(0, i + 1).contains(x)) by {
            let w = choose|w: int| 0 <= w < i && s.subrange(0, i)[w] == x;
            assert(s.subrange(0, i + 1)[w] == x);
        }
        lemma_dedup_first_excludes(s, i + 1, x);
        if !s.subrange(0, i).contains(s[i]) {
            assert(s[i] != x) by {
                let w = choose|w: int| 0 <= w < i && s.subrange(0, i)[w] == x;
            }
            assert forall|k: int|
                0 <= k < dedup_first_from(s, i).len() implies dedup_first_from(s, i)[k]
                != x by {
                if k > 0 {
                    assert(dedup_first_from(s, i)[k] == dedup_first_from(s, i + 1)[k - 1]);
                }
            }
        }
    }
}

/// The deduplication of the referenced builtin names holds each name at
/// most once.
pub proof fn lemma_dedup_first_distinct(s: Seq<Seq<char>>, i: int)
    requires
        0 <= i,
    ensures
        distinct_names(dedup_first_from(s, i)),
    decreases s.len() - i,
{
    if i < s.len() {
        lemma_dedup_first_distinct(s, i + 1);
        if !s.subrange(0, i).contains(s[i]) {
            assert(s.subrange(0, i + 1).contains(s[i])) by {
                assert(s.subrange(0, i + 1)[i] == s[i]);
            }
            lemma_dedup_first_excludes(s, i + 1, s[i]);
            let d = dedup_first_from(s, i);
            let rest = dedup_first_from(s, i + 1);
            assert forall|a: int, b: int| 0 <= a < b < d.len() implies d[a] != d[b] by {
                if a == 0 {
                    assert(d[b] == rest[b - 1]);
                    assert(!rest.contains(s[i]));
                    assert(rest[b - 1] != s[i]);
                } else {
                    assert(d[a] == rest[a - 1]);
                    assert(d[b] == rest[b - 1]);
                }
            }
        }
    }
}

/// Law: a built tree's imports list holds each builtin name at most once,
/// however many call sites referenced it.
pub proof fn lemma_build_imports_distinct(
    name: Seq<char>,
    params: Seq<Seq<char>>,
    input: Seq<char>,
)
    ensures
        spec_build(name, params, input) matches Ok(a) ==> distinct_names(a.imports),
{
    if let Ok(toks) = spec_tokenize(input) {
        if let Ok((root, p, st)) = spec_parse_main(toks, 0, params, empty_state(), Seq::empty()) {
            lemma_dedup_first_distinct(st.imports, 0);
        }
    }
}

/// The expression parsers read the assigned variables but never add one:
/// only the assignment sequence of `spec_parse_main` grows `variables`.
/// The lemmas below state that for every parser of the two families.
proof fn lemma_expr_keeps_variables(
    toks: Seq<TokenView>,
    pos: int,
    params: Seq<Seq<char>>,
    st: StateView,
)
    ensures
        spec_parse_expr(toks, pos, params, st) matches Ok(t) ==> t.2.variables == st.variables,
    decreases toks.len() - pos, 4int,
{
    lemma_term_keeps_variables(toks, pos, params, st);
    if let Ok((n, p, st1)) = spec_parse_term(toks, pos, params, st) {
        if pos < p <= toks.len() {
            lemma_expr_more_keeps_variables(toks, p, params, st1, n);
        }
    }
}

proof fn lemma_expr_more_keeps_variables(
    toks: Seq<TokenView>,
    pos: int,
    params: Seq<Seq<char>>,
    st: StateView,
    left: AstNodeView,
)
    ensures
        spec_parse_expr_more(toks, pos, params, st, left) matches Ok(t) ==> t.2.variables
            == st.variables,
    decreases toks.len() - pos, 0int,
{
    let k = kind_at(toks, pos);
    if k is Plus || k is Minus {
        let op = if k is Plus {
            AstOperator::Add
        } else {
            AstOperator::Subtract
        };
        lemma_term_keeps_variables(toks, pos + 1, params, st);
        if let Ok((rhs, p, st1)) = spec_parse_term(toks, pos + 1, params, st) {
            if pos < p <= toks.len() {
                let node = AstNodeView::Operation {
                    left: Box::new(left),
                    op,
                    right: Box::new(rhs),
                };
                lemma_expr_more_keeps_variables(toks, p, params, st1, node);
            }
        }
    }
}

proof fn lemma_term_keeps_variables(
    toks: Seq<TokenView>,
    pos: int,
    params: Seq<Seq<char>>,
    st: StateView,
)
    ensures
        spec_parse_term(toks, pos, params, st) matches Ok(t) ==> t.2.variables == st.variables,
    decreases toks.len() - pos, 3int,
{
    lemma_factor_keeps_variables(toks, pos, params, st);
    if let Ok((n, p, st1)) = spec_parse_factor(toks, pos, params, st) {
        if pos < p <= toks.len() {
            lemma_term_more_keeps_variables(toks, p, params, st1, n);
        }
    }
}

proof fn lemma_term_more_keeps_variables(
    toks: Seq<TokenView>,
    pos: int,
    params: Seq<Seq<char>>,
    st: StateView,
    left: AstNodeView,
)
    ensures
        spec_parse_term_more(toks, pos, params, st, left) matches Ok(t) ==> t.2.variables
            == st.variables,
    decreases toks.len() - pos, 0int,
{
    let k = kind_at(toks, pos);
    if k is Star || k is Slash {
        let op = if k is Star {
            AstOperator::Multiply
        } else {
            AstOperator::Divide
        };
        lemma_factor_keeps_variables(toks, pos + 1, params, st);
        if let Ok((rhs, p, st1)) = spec_parse_factor(toks, pos + 1, params, st) {
            if pos < p <= toks.len() {
                let node = AstNodeView::Operation {
                    left: Box::new(left),
                    op,
                    right: Box::new(rhs),
                };
                lemma_term_more_keeps_variables(toks, p, params, st1, node);
            }
        }
    }
}

proof fn lemma_factor_keeps_variables(
    toks: Seq<TokenView>,
    pos: int,
    params: Seq<Seq<char>>,
    st: StateView,
)
    ensures
        spec_parse_factor(toks, pos, params, st) matches Ok(t) ==> t.2.variables == st.variables,
    decreases toks.len() - pos, 2int,
{
    lemma_unary_keeps_variables(toks, pos, params, st);
    if let Ok((base, p, st1)) = spec_parse_unary(toks, pos, params, st) {
        if kind_at(toks, p) is Power && pos <= p {
            lemma_factor_keeps_variables(toks, p + 1, params, st1);
        }
    }
}

proof fn lemma_unary_keeps_variables(
    toks: Seq<TokenView>,
    pos: int,
    params: Seq<Seq<char>>,
    st: StateView,
)
    ensures
        spec_parse_unary(toks, pos, params, st) matches Ok(t) ==> t.2.variables == st.variables,
    decreases toks.len() - pos, 1int,
{
    match kind_at(toks, pos) {
        TokenKindView::Ident(name) => {
            if kind_at(toks, pos + 1) is LParen && !(kind_at(toks, pos + 2) is RParen) {
                lemma_args_keep_variables(toks, pos + 2, params, st);
            }
        },
        TokenKindView::LParen => {
            lemma_expr_keeps_variables(toks, pos + 1, params, st);
        },
        TokenKindView::KwIf => {
            lemma_branch_keeps_variables(toks, pos, params, st);
        },
        _ => {},
    }
}

proof fn lemma_args_keep_variables(
    toks: Seq<TokenView>,
    pos: int,
    params: Seq<Seq<char>>,
    st: StateView,
)
    ensures
        spec_parse_args(toks, pos, params, st) matches Ok(t) ==> t.2.variables == st.variables,
    decreases toks.len() - pos, 5int,
{
    lemma_expr_keeps_variables(toks, pos, params, st);
    if let Ok((n, p, st1)) = spec_parse_expr(toks, pos, params, st) {
        if kind_at(toks, p) is Comma && pos <= p {
            lemma_args_keep_variables(toks, p + 1, params, st1);
        }
    }
}

proof fn lemma_branch_keeps_variables(
    toks: Seq<TokenView>,
    pos: int,
    params: Seq<Seq<char>>,
    st: StateView,
)
    ensures
        spec_parse_branch(toks, pos, params, st) matches Ok(t) ==> t.2.variables == st.variables,
    decreases toks.len() - pos, 0int,
{
    if kind_at(toks, pos) is KwIf {
        lemma_bool_expr_keeps_variables(toks, pos + 1, params, st);
        if let Ok((cond, p, st1)) = spec_parse_bool_expr(toks, pos + 1, params, st) {
            if kind_at(toks, p) is LBrace && pos <= p {
                lemma_expr_keeps_variables(toks, p + 1, params, st1);
                if let Ok((body, p2, st2)) = spec_parse_expr(toks, p + 1, params, st1) {
                    if kind_at(toks, p2) is RBrace && pos <= p2 {
                        lemma_branch_tail_keeps_variables(
                            toks,
                            p2 + 1,
                            params,
                            st2,
                            seq![BranchView { condition: cond, body }],
                        );
                    }
                }
            }
        }
    }
}

proof fn lemma_branch_tail_keeps_variables(
    toks: Seq<TokenView>,
    pos: int,
    params: Seq<Seq<char>>,
    st: StateView,
    arms: Seq<BranchView>,
)
    ensures
        spec_parse_branch_tail(toks, pos, params, st, arms) matches Ok(t) ==> t.2.variables
            == st.variables,
    decreases toks.len() - pos, 0int,
{
    if kind_at(toks, pos) is KwElse {
        if kind_at(toks, pos + 1) is KwIf {
            lemma_bool_expr_keeps_variables(toks, pos + 2, params, st);
            if let Ok((cond, p, st1)) = spec_parse_bool_expr(toks, pos + 2, params, st) {
                if kind_at(toks, p) is LBrace && pos <= p {
                    lemma_expr_keeps_variables(toks, p + 1, params, st1);
                    if let Ok((body, p2, st2)) = spec_parse_expr(toks, p + 1, params, st1) {
                        if kind_at(toks, p2) is RBrace && pos <= p2 {
                            lemma_branch_tail_keeps_variables(
                                toks,
                                p2 + 1,
                                params,
                                st2,
                                arms.push(BranchView { condition: cond, body }),
                            );
                        }
                    }
                }
            }
        } else if kind_at(toks, pos + 1) is LBrace {
            lemma_expr_keeps_variables(toks, pos + 2, params, st);
        }
    }
}

proof fn lemma_bool_expr_keeps_variables(
    toks: Seq<TokenView>,
    pos: int,
    params: Seq<Seq<char>>,
    st: StateView,
)
    ensures
        spec_parse_bool_expr(toks, pos, params, st) matches Ok(t) ==> t.2.variables
            == st.variables,
    decreases toks.len() - pos, 8int,
{
    lemma_bool_term_keeps_variables(toks, pos, params, st);
    if let Ok((b, p, st1)) = spec_parse_bool_term(toks, pos, params, st) {
        if pos < p <= toks.len() {
            lemma_bool_expr_more_keeps_variables(toks, p, params, st1, b);
        }
    }
}

proof fn lemma_bool_expr_more_keeps_variables(
    toks: Seq<TokenView>,
    pos: int,
    params: Seq<Seq<char>>,
    st: StateView,
    left: BooleanExpressionView,
)
    ensures
        spec_parse_bool_expr_more(toks, pos, params, st, left) matches Ok(t) ==> t.2.variables
            == st.variables,
    decreases toks.len() - pos, 0int,
{
    if kind_at(toks, pos) is AndAnd {
        lemma_bool_term_keeps_variables(toks, pos + 1, params, st);
        if let Ok((rhs, p, st1)) = spec_parse_bool_term(toks, pos + 1, params, st) {
            if pos < p <= toks.len() {
                let node = BooleanExpressionView::Operation {
                    left: Box::new(left),
                    op: BooleanOperator::And,
                    right: Box::new(rhs),
                };
                lemma_bool_expr_more_keeps_variables(toks, p, params, st1, node);
            }
        }
    }
}

proof fn lemma_bool_term_keeps_variables(
    toks: Seq<TokenView>,
    pos: int,
    params: Seq<Seq<char>>,
    st: StateView,
)
    ensures
        spec_parse_bool_term(toks, pos, params, st) matches Ok(t) ==> t.2.variables
            == st.variables,
    decreases toks.len() - pos, 7int,
{
    lemma_bool_factor_keeps_variables(toks, pos, params, st);
    if let Ok((b, p, st1)) = spec_parse_bool_factor(toks, pos, params, st) {
        if pos < p <= toks.len() {
            lemma_bool_term_more_keeps_variables(toks, p, params, st1, b);
        }
    }
}

proof fn lemma_bool_term_more_keeps_variables(
    toks: Seq<TokenView>,
    pos: int,
    params: Seq<Seq<char>>,
    st: StateView,
    left: BooleanExpressionView,
)
    ensures
        spec_parse_bool_term_more(toks, pos, params, st, left) matches Ok(t) ==> t.2.variables
            == st.variables,
    decreases toks.len() - pos, 0int,
{
    if kind_at(toks, pos) is OrOr {
        lemma_bool_factor_keeps_variables(toks, pos + 1, params, st);
        if let Ok((rhs, p, st1)) = spec_parse_bool_factor(toks, pos + 1, params, st) {
            if pos < p <= toks.len() {
                let node = BooleanExpressionView::Operation {
                    left: Box::new(left),
                    op: BooleanOperator::Or,
                    right: Box::new(rhs),
                };
                lemma_bool_term_more_keeps_variables(toks, p, params, st1, node);
            }
        }
    }
}

proof fn lemma_bool_factor_keeps_variables(
    toks: Seq<TokenView>,
    pos: int,
    params: Seq<Seq<char>>,
    st: StateView,
)
    ensures
        spec_parse_bool_factor(toks, pos, params, st) matches Ok(t) ==> t.2.variables
            == st.variables,
    decreases toks.len() - pos, 6int,
{
    match kind_at(toks, pos) {
        TokenKindView::KwTrue => {},
        TokenKindView::KwFalse => {},
        _ => {
            lemma_comparison_keeps_variables(toks, pos, params, st);
            if spec_parse_comparison(toks, pos, params, st) matches Err(e) && e is Parse
                && kind_at(toks, pos) is LParen {
                lemma_bool_expr_keeps_variables(toks, pos + 1, params, st);
            }
        },
    }
}

proof fn lemma_comparison_keeps_variables(
    toks: Seq<TokenView>,
    pos: int,
    params: Seq<Seq<char>>,
    st: StateView,
)
    ensures
        spec_parse_comparison(toks, pos, params, st) matches Ok(t) ==> t.2.variables
            == st.variables,
    decreases toks.len() - pos, 5int,
{
    lemma_expr_keeps_variables(toks, pos, params, st);
    if let Ok((l, p, st1)) = spec_parse_expr(toks, pos, params, st) {
        if comparator_of(kind_at(toks, p)) is Some && pos <= p < toks.len() {
            lemma_expr_keeps_variables(toks, p + 1, params, st1);
        }
    }
}

/// The assignment sequence grows `variables` only by names that are not
/// parameters, behind whatever stood in it before.
proof fn lemma_main_variables_fresh(
    toks: Seq<TokenView>,
    pos: int,
    params: Seq<Seq<char>>,
    st: StateView,
    acc: Seq<AssignmentView>,
)
    ensures
        spec_parse_main(toks, pos, params, st, acc) matches Ok(t) ==> {
            &&& t.2.variables.len() >= st.variables.len()
            &&& forall|i: int|
                0 <= i < t.2.variables.len() ==> (if i < st.variables.len() {
                    t.2.variables[i] == st.variables[i]
                } else {
                    !params.contains(#[trigger] t.2.variables[i])
                })
        },
    decreases toks.len() - pos, 9int,
{
    if kind_at(toks, pos) is Ident && kind_at(toks, pos + 1) is Assign {
        let name = kind_at(toks, pos)->Ident_0;
        if !params.contains(name) {
            let st0 = with_variable(st, name);
            lemma_expr_keeps_variables(toks, pos + 2, params, st0);
            if let Ok((value, p, st1)) = spec_parse_expr(toks, pos + 2, params, st0) {
                if kind_at(toks, p) is Semicolon && pos <= p {
                    lemma_main_variables_fresh(
                        toks,
                        p + 1,
                        params,
                        st1,
                        acc.push(AssignmentView { identifier: name, expression: value }),
                    );
                }
            }
        }
    } else {
        lemma_expr_keeps_variables(toks, pos, params, st);
    }
}

/// Law: no name in a built tree's variables list is a parameter; an
/// assignment that targets a parameter fails the build instead.
pub proof fn lemma_build_variables_fresh(
    name: Seq<char>,
    params: Seq<Seq<char>>,
    input: Seq<char>,
)
    ensures
        spec_build(name, params, input) matches Ok(a) ==> forall|i: int|
            0 <= i < a.variables.len() ==> !params.contains(#[trigger] a.variables[i]),
{
    if let Ok(toks) = spec_tokenize(input) {
        lemma_main_variables_fresh(toks, 0, params, empty_state(), Seq::empty());
    }
}

fn contains_prefix(v: &Vec<String>, upto: usize, x: &String) -> (r: bool)
    requires
        upto <= v@.len(),
    ensures
        r == v.deep_view().subrange(0, upto as int).contains(x@),
{
    let mut i: usize = 0;
    while i < upto
        invariant
            i <= upto <= v@.len(),
            forall|j: int| 0 <= j < i ==> v.deep_view()[j] != x@,
        decreases upto - i,
    {
        if v[i] == *x {
            proof {
                assert(v.deep_view().subrange(0, upto as int)[i as int] == x@);
            }
            return true;
        }
        i += 1;
    }
    proof {
        assert forall|j: int| 0 <= j < upto implies v.deep_view().subrange(0, upto as int)[j]
            != x@ by {
            assert(v.deep_view()[j] != x@);
        }
    }
    false
}

fn contains_string(v: &Vec<String>, x: &String) -> (r: bool)
    ensures
        r == v.deep_view().contains(x@),
{
    let r = contains_prefix(v, v.len(), x);
    proof {
        assert(v.deep_view().subrange(0, v@.len() as int) =~= v.deep_view());
    }
    r
}

fn clone_strings(v: &Vec<String>) -> (r: Vec<String>)
    ensures
        r.deep_view() == v.deep_view(),
{
    let mut out: Vec<String> = Vec::new();
    let mut i: usize = 0;
    while i < v.len()
        invariant
            i <= v@.len(),
            out@.len() == i,
            forall|j: int| 0 <= j < i ==> out.deep_view()[j] == v.deep_view()[j],
        decreases v@.len() - i,
    {
        out.push(v[i].clone());
        i += 1;
    }
    proof {
        assert(out.deep_view() =~= v.deep_view());
    }
    out
}

fn clone_string_slice(v: &[String]) -> (r: Vec<String>)
    ensures
        r.deep_view() == v.deep_view(),
{
    let mut out: Vec<String> = Vec::new();
    let mut i: usize = 0;
    while i < v.len()
        invariant
            i <= v@.len(),
            out@.len() == i,
            forall|j: int| 0 <= j < i ==> out.deep_view()[j] == v.deep_view()[j],
        decreases v@.len() - i,
    {
        out.push(v[i].clone());
        i += 1;
    }
    proof {
        assert(out.deep_view() =~= v.deep_view());
    }
    out
}

fn clone_state(st: &BuildState) -> (r: BuildState)
    ensures
        r.deep_view() == st.deep_view(),
{
    BuildState {
        variables: clone_strings(&st.variables),
        imports: clone_strings(&st.imports),
    }
}

fn push_import(st: BuildState, name: String) -> (r: BuildState)
    ensures
        r.deep_view() == with_import(st.deep_view(), name@),
{
    let mut st2 = st;
    st2.imports.push(name);
    proof {
        assert(st2.deep_view().imports =~= st.deep_view().imports.push(name@));
    }
    st2
}

fn push_variable(st: BuildState, name: String) -> (r: BuildState)
    ensures
        r.deep_view() == with_variable(st.deep_view(), name@),
{
    let mut st2 = st;
    st2.variables.push(name);
    proof {
        assert(st2.deep_view().variables =~= st.deep_view().variables.push(name@));
    }
    st2
}

fn parse_err(toks: &Vec<Token>, pos: usize, expected: &str) -> (e: BuildError)
    requires
        pos < toks.len(),
    ensures
        e.deep_view() == perr(toks.deep_view(), pos as int, expected@),
{
    BuildError::Parse { position: toks[pos].position, expected: expected.to_owned() }
}

fn ident_name(k: &TokenKind) -> (r: String)
    requires
        k.deep_view() is Ident,
    ensures
        r@ == k.deep_view()->Ident_0,
{
    match k {
        TokenKind::Ident(n) => n.clone(),
        _ => vstd::pervasive::unreached(),
    }
}

fn comparator_token(k: &TokenKind) -> (r: Option<BooleanComparator>)
    ensures
        r == comparator_of(k.deep_view()),
{
    match k {
        TokenKind::EqEq => Some(BooleanComparator::Equal),
        TokenKind::NotEq => Some(BooleanComparator::NotEqual),
        TokenKind::Lt => Some(BooleanComparator::LessThan),
        TokenKind::Le => Some(BooleanComparator::LessThanOrEqual),
        TokenKind::Gt => Some(BooleanComparator::GreaterThan),
        TokenKind::Ge => Some(BooleanComparator::GreaterThanOrEqual),
        _ => None,
    }
}

fn parse_expr(toks: &Vec<Token>, pos: usize, params: &Vec<String>, st: BuildState) -> (r: Result<
    (AstNode, usize, BuildState),
    BuildError,
>)
    requires
        wf_tokens(toks.deep_view()),
        pos < toks.len(),
    ensures
        node_result_matches(
            r,
            spec_parse_expr(toks.deep_view(), pos as int, params.deep_view(), st.deep_view()),
        ),
        r matches Ok(t) ==> pos < t.1 < toks.len(),
    decreases toks.len() - pos, 4int,
{
    match parse_term(toks, pos, params, st) {
        Err(e) => Err(e),
        Ok((n, p, st1)) => parse_expr_more(toks, p, params, st1, n),
    }
}

fn parse_expr_more(
    toks: &Vec<Token>,
    pos: usize,
    params: &Vec<String>,
    st: BuildState,
    left: AstNode,
) -> (r: Result<(AstNode, usize, BuildState), BuildError>)
    requires
        wf_tokens(toks.deep_view()),
        pos < toks.len(),
    ensures
        node_result_matches(
            r,
            spec_parse_expr_more(
                toks.deep_view(),
                pos as int,
                params.deep_view(),
                st.deep_view(),
                left.deep_view(),
            ),
        ),
        r matches Ok(t) ==> pos <= t.1 < toks.len(),
    decreases toks.len() - pos, 0int,
{
    let is_plus = matches!(&toks[pos].kind, TokenKind::Plus);
    let is_minus = matches!(&toks[pos].kind, TokenKind::Minus);
    if is_plus || is_minus {
        let op = if is_plus {
            AstOperator::Add
        } else {
            AstOperator::Subtract
        };
        match parse_term(toks, pos + 1, params, st) {
            Err(e) => Err(e),
            Ok((rhs, p, st1)) => {
                let node = AstNode::Operation { left: Box::new(left), op, right: Box::new(rhs) };
                parse_expr_more(toks, p, params, st1, node)
            },
        }
    } else {
        Ok((left, pos, st))
    }
}

fn parse_term(toks: &Vec<Token>, pos: usize, params: &Vec<String>, st: BuildState) -> (r: Result<
    (AstNode, usize, BuildState),
    BuildError,
>)
    requires
        wf_tokens(toks.deep_view()),
        pos < toks.len(),
    ensures
        node_result_matches(
            r,
            spec_parse_term(toks.deep_view(), pos as int, params.deep_view(), st.deep_view()),
        ),
        r matches Ok(t) ==> pos < t.1 < toks.len(),
    decreases toks.len() - pos, 3int,
{
    match parse_factor(toks, pos, params, st) {
        Err(e) => Err(e),
        Ok((n, p, st1)) => parse_term_more(toks, p, params, st1, n),
    }
}

fn parse_term_more(
    toks: &Vec<Token>,
    pos: usize,
    params: &Vec<String>,
    st: BuildState,
    left: AstNode,
) -> (r: Result<(AstNode, usize, BuildState), BuildError>)
    requires
        wf_tokens(toks.deep_view()),
        pos < toks.len(),
    ensures
        node_result_matches(
            r,
            spec_parse_term_more(
                toks.deep_view(),
                pos as int,
                params.deep_view(),
                st.deep_view(),
                left.deep_view(),
            ),
        ),
        r matches Ok(t) ==> pos <= t.1 < toks.len(),
    decreases toks.len() - pos, 0int,
{
    let is_star = matches!(&toks[pos].kind, TokenKind::Star);
    let is_slash = matches!(&toks[pos].kind, TokenKind::Slash);
    if is_star || is_slash {
        let op = if is_star {
            AstOperator::Multiply
        } else {
            AstOperator::Divide
        };
        match parse_factor(toks, pos + 1, params, st) {
            Err(e) => Err(e),
            Ok((rhs, p, st1)) => {
                let node = AstNode::Operation { left: Box::new(left), op, right: Box::new(rhs) };
                parse_term_more(toks, p, params, st1, node)
            },
        }
    } else {
        Ok((left, pos, st))
    }
}

fn parse_factor(toks: &Vec<Token>, pos: usize, params: &Vec<String>, st: BuildState) -> (r: Result<
    (AstNode, usize, BuildState),
    BuildError,
>)
    requires
        wf_tokens(toks.deep_view()),
        pos < toks.len(),
    ensures
        node_result_matches(
            r,
            spec_parse_factor(toks.deep_view(), pos as int, params.deep_view(), st.deep_view()),
        ),
        r matches Ok(t) ==> pos < t.1 < toks.len(),
    decreases toks.len() - pos, 2int,
{
    match parse_unary(toks, pos, params, st) {
        Err(e) => Err(e),
        Ok((base, p, st1)) => {
            if matches!(&toks[p].kind, TokenKind::Power) {
                match parse_factor(toks, p + 1, params, st1) {
                    Err(e) => Err(e),
                    Ok((rhs, p2, st2)) => {
                        let ghost basev = base.deep_view();
                        let ghost rhsv = rhs.deep_view();
                        let mut args: Vec<AstNode> = Vec::new();
                        args.push(base);
                        args.push(rhs);
                        let node = AstNode::Function { name: "pow".to_owned(), args };
                        proof {
                            crate::ast::lemma_nodes_view(node->Function_args@);
                            assert(nodes_view(node->Function_args@) =~= seq![basev, rhsv]);
                        }
                        Ok((node, p2, push_import(st2, "pow".to_owned())))
                    },
                }
            } else {
                Ok((base, p, st1))
            }
        },
    }
}

fn parse_unary(toks: &Vec<Token>, pos: usize, params: &Vec<String>, st: BuildState) -> (r: Result<
    (AstNode, usize, BuildState),
    BuildError,
>)
    requires
        wf_tokens(toks.deep_view()),
        pos < toks.len(),
    ensures
        node_result_matches(
            r,
            spec_parse_unary(toks.deep_view(), pos as int, params.deep_view(), st.deep_view()),
        ),
        r matches Ok(t) ==> pos < t.1 < toks.len(),
    decreases toks.len() - pos, 1int,
{
    match &toks[pos].kind {
        TokenKind::Number(text) => Ok((AstNode::Constant(text.clone()), pos + 1, st)),
        TokenKind::Ident(name) => {
            proof {
                assert(pos as int != toks.len() - 1);
            }
            if matches!(&toks[pos + 1].kind, TokenKind::LParen) {
                proof {
                    assert(pos + 1 != toks.len() - 1);
                }
                if matches!(&toks[pos + 2].kind, TokenKind::RParen) {
                    let node = AstNode::Function { name: name.clone(), args: Vec::new() };
                    proof {
                        let em = node->Function_args@;
                        assert(em =~= Seq::<AstNode>::empty());
                        assert(nodes_view(em) =~= Seq::<AstNodeView>::empty());
                    }
                    Ok((node, pos + 3, push_import(st, name.clone())))
                } else {
                    match parse_args(toks, pos + 2, params, st) {
                        Err(e) => Err(e),
                        Ok((args, p, st1)) => {
                            if matches!(&toks[p].kind, TokenKind::RParen) {
                                let node = AstNode::Function { name: name.clone(), args };
                                proof {
                                    crate::ast::lemma_nodes_view(node->Function_args@);
                                    assert(nodes_view(node->Function_args@)
                                        =~= node->Function_args.deep_view());
                                }
                                Ok((node, p + 1, push_import(st1, name.clone())))
                            } else {
                                Err(parse_err(toks, p, ")"))
                            }
                        },
                    }
                }
            } else if contains_string(params, name) || contains_string(&st.variables, name) {
                Ok((AstNode::Variable(name.clone()), pos + 1, st))
            } else {
                Err(BuildError::UnknownIdentifier(name.clone()))
            }
        },
        TokenKind::LParen => {
            proof {
                assert(pos as int != toks.len() - 1);
            }
            match parse_expr(toks, pos + 1, params, st) {
                Err(e) => Err(e),
                Ok((n, p, st1)) => {
                    if matches!(&toks[p].kind, TokenKind::RParen) {
                        Ok((n, p + 1, st1))
                    } else {
                        Err(parse_err(toks, p, ")"))
                    }
                },
            }
        },
        TokenKind::KwIf => parse_branch(toks, pos, params, st),
        _ => Err(parse_err(toks, pos, "an expression")),
    }
}

fn parse_args(toks: &Vec<Token>, pos: usize, params: &Vec<String>, st: BuildState) -> (r: Result<
    (Vec<AstNode>, usize, BuildState),
    BuildError,
>)
    requires
        wf_tokens(toks.deep_view()),
        pos < toks.len(),
    ensures
        args_result_matches(
            r,
            spec_parse_args(toks.deep_view(), pos as int, params.deep_view(), st.deep_view()),
        ),
        r matches Ok(t) ==> pos < t.1 < toks.len(),
    decreases toks.len() - pos, 5int,
{
    match parse_expr(toks, pos, params, st) {
        Err(e) => Err(e),
        Ok((n, p, st1)) => {
            if matches!(&toks[p].kind, TokenKind::Comma) {
                match parse_args(toks, p + 1, params, st1) {
                    Err(e) => Err(e),
                    Ok((rest, p2, st2)) => {
                        let ghost rv = rest.deep_view();
                        let ghost nv = n.deep_view();
                        let mut v = rest;
                        v.insert(0, n);
                        proof {
                            assert(v.deep_view() =~= seq![nv] + rv);
                        }
                        Ok((v, p2, st2))
                    },
                }
            } else {
                let ghost nv = n.deep_view();
                let mut v: Vec<AstNode> = Vec::new();
                v.push(n);
                proof {
                    assert(v.deep_view() =~= seq![nv]);
                }
                Ok((v, p, st1))
            }
        },
    }
}

fn parse_branch(toks: &Vec<Token>, pos: usize, params: &Vec<String>, st: BuildState) -> (r: Result<
    (AstNode, usize, BuildState),
    BuildError,
>)
    requires
        wf_tokens(toks.deep_view()),
        pos < toks.len(),
    ensures
        node_result_matches(
            r,
            spec_parse_branch(toks.deep_view(), pos as int, params.deep_view(), st.deep_view()),
        ),
        r matches Ok(t) ==> pos < t.1 < toks.len(),
    decreases toks.len() - pos, 0int,
{
    if matches!(&toks[pos].kind, TokenKind::KwIf) {
        proof {
            assert(pos as int != toks.len() - 1);
        }
        match parse_bool_expr(toks, pos + 1, params, st) {
            Err(e) => Err(e),
            Ok((cond, p, st1)) => {
                if matches!(&toks[p].kind, TokenKind::LBrace) {
                    match parse_expr(toks, p + 1, params, st1) {
                        Err(e) => Err(e),
                        Ok((body, p2, st2)) => {
                            if matches!(&toks[p2].kind, TokenKind::RBrace) {
                                let ghost cv = cond.deep_view();
                                let ghost bv = body.deep_view();
                                let mut arms: Vec<Branch> = Vec::new();
                                arms.push(Branch { condition: cond, body });
                                proof {
                                    assert(arms.deep_view() =~= seq![
                                        BranchView { condition: cv, body: bv },
                                    ]);
                                }
                                parse_branch_tail(toks, p2 + 1, params, st2, arms)
                            } else {
                                Err(parse_err(toks, p2, "}"))
                            }
                        },
                    }
                } else {
                    Err(parse_err(toks, p, "{"))
                }
            },
        }
    } else {
        Err(parse_err(toks, pos, "if"))
    }
}

fn parse_branch_tail(
    toks: &Vec<Token>,
    pos: usize,
    params: &Vec<String>,
    st: BuildState,
    arms: Vec<Branch>,
) -> (r: Result<(AstNode, usize, BuildState), BuildError>)
    requires
        wf_tokens(toks.deep_view()),
        pos < toks.len(),
    ensures
        node_result_matches(
            r,
            spec_parse_branch_tail(
                toks.deep_view(),
                pos as int,
                params.deep_view(),
                st.deep_view(),
                arms.deep_view(),
            ),
        ),
        r matches Ok(t) ==> pos < t.1 < toks.len(),
    decreases toks.len() - pos, 0int,
{
    if matches!(&toks[pos].kind, TokenKind::KwElse) {
        proof {
            assert(pos as int != toks.len() - 1);
        }
        if matches!(&toks[pos + 1].kind, TokenKind::KwIf) {
            proof {
                assert(pos + 1 != toks.len() - 1);
            }
            match parse_bool_expr(toks, pos + 2, params, st) {
                Err(e) => Err(e),
                Ok((cond, p, st1)) => {
                    if matches!(&toks[p].kind, TokenKind::LBrace) {
                        match parse_expr(toks, p + 1, params, st1) {
                            Err(e) => Err(e),
                            Ok((body, p2, st2)) => {
                                if matches!(&toks[p2].kind, TokenKind::RBrace) {
                                    let ghost av = arms.deep_view();
                                    let ghost cv = cond.deep_view();
                                    let ghost bv = body.deep_view();
                                    let mut arms2 = arms;
                                    arms2.push(Branch { condition: cond, body });
                                    proof {
                                        assert(arms2.deep_view() =~= av.push(
                                            BranchView { condition: cv, body: bv },
                                        ));
                                    }
                                    parse_branch_tail(toks, p2 + 1, params, st2, arms2)
                                } else {
                                    Err(parse_err(toks, p2, "}"))
                                }
                            },
                        }
                    } else {
                        Err(parse_err(toks, p, "{"))
                    }
                },
            }
        } else if matches!(&toks[pos + 1].kind, TokenKind::LBrace) {
            proof {
                assert(pos + 1 != toks.len() - 1);
            }
            match parse_expr(toks, pos + 2, params, st) {
                Err(e) => Err(e),
                Ok((els, p, st1)) => {
                    if matches!(&toks[p].kind, TokenKind::RBrace) {
                        let node = AstNode::Branch {
                            condition_branches: arms,
                            else_branch: Box::new(els),
                        };
                        proof {
                            crate::ast::lemma_branches_view(node->Branch_condition_branches@);
                            assert(branches_view(node->Branch_condition_branches@)
                                =~= node->Branch_condition_branches.deep_view());
                        }
                        Ok((node, p + 1, st1))
                    } else {
                        Err(parse_err(toks, p, "}"))
                    }
                },
            }
        } else {
            Err(parse_err(toks, pos + 1, "if or {"))
        }
    } else {
        Err(BuildError::MalformedBranch)
    }
}

fn parse_bool_expr(toks: &Vec<Token>, pos: usize, params: &Vec<String>, st: BuildState) -> (r:
    Result<(BooleanExpression, usize, BuildState), BuildError>)
    requires
        wf_tokens(toks.deep_view()),
        pos < toks.len(),
    ensures
        bool_result_matches(
            r,
            spec_parse_bool_expr(toks.deep_view(), pos as int, params.deep_view(), st.deep_view()),
        ),
        r matches Ok(t) ==> pos < t.1 < toks.len(),
    decreases toks.len() - pos, 8int,
{
    match parse_bool_term(toks, pos, params, st) {
        Err(e) => Err(e),
        Ok((b, p, st1)) => parse_bool_expr_more(toks, p, params, st1, b),
    }
}

fn parse_bool_expr_more(
    toks: &Vec<Token>,
    pos: usize,
    params: &Vec<String>,
    st: BuildState,
    left: BooleanExpression,
) -> (r: Result<(BooleanExpression, usize, BuildState), BuildError>)
    requires
        wf_tokens(toks.deep_view()),
        pos < toks.len(),
    ensures
        bool_result_matches(
            r,
            spec_parse_bool_expr_more(
                toks.deep_view(),
                pos as int,
                params.deep_view(),
                st.deep_view(),
                left.deep_view(),
            ),
        ),
        r matches Ok(t) ==> pos <= t.1 < toks.len(),
    decreases toks.len() - pos, 0int,
{
    if matches!(&toks[pos].kind, TokenKind::AndAnd) {
        match parse_bool_term(toks, pos + 1, params, st) {
            Err(e) => Err(e),
            Ok((rhs, p, st1)) => {
                let node = BooleanExpression::Operation {
                    left: Box::new(left),
                    op: BooleanOperator::And,
                    right: Box::new(rhs),
                };
                parse_bool_expr_more(toks, p, params, st1, node)
            },
        }
    } else {
        Ok((left, pos, st))
    }
}

fn parse_bool_term(toks: &Vec<Token>, pos: usize, params: &Vec<String>, st: BuildState) -> (r:
    Result<(BooleanExpression, usize, BuildState), BuildError>)
    requires
        wf_tokens(toks.deep_view()),
        pos < toks.len(),
    ensures
        bool_result_matches(
            r,
            spec_parse_bool_term(toks.deep_view(), pos as int, params.deep_view(), st.deep_view()),
        ),
        r matches Ok(t) ==> pos < t.1 < toks.len(),
    decreases toks.len() - pos, 7int,
{
    match parse_bool_factor(toks, pos, params, st) {
        Err(e) => Err(e),
        Ok((b, p, st1)) => parse_bool_term_more(toks, p, params, st1, b),
    }
}

fn parse_bool_term_more(
    toks: &Vec<Token>,
    pos: usize,
    params: &Vec<String>,
    st: BuildState,
    left: BooleanExpression,
) -> (r: Result<(BooleanExpression, usize, BuildState), BuildError>)
    requires
        wf_tokens(toks.deep_view()),
        pos < toks.len(),
    ensures
        bool_result_matches(
            r,
            spec_parse_bool_term_more(
                toks.deep_view(),
                pos as int,
                params.deep_view(),
                st.deep_view(),
                left.deep_view(),
            ),
        ),
        r matches Ok(t) ==> pos <= t.1 < toks.len(),
    decreases toks.len() - pos, 0int,
{
    if matches!(&toks[pos].kind, TokenKind::OrOr) {
        match parse_bool_factor(toks, pos + 1, params, st) {
            Err(e) => Err(e),
            Ok((rhs, p, st1)) => {
                let node = BooleanExpression::Operation {
                    left: Box::new(left),
                    op: BooleanOperator::Or,
                    right: Box::new(rhs),
                };
                parse_bool_term_more(toks, p, params, st1, node)
            },
        }
    } else {
        Ok((left, pos, st))
    }
}

#[verifier::rlimit(100)]
fn parse_bool_factor(toks: &Vec<Token>, pos: usize, params: &Vec<String>, st: BuildState) -> (r:
    Result<(BooleanExpression, usize, BuildState), BuildError>)
    requires
        wf_tokens(toks.deep_view()),
        pos < toks.len(),
    ensures
        bool_result_matches(
            r,
            spec_parse_bool_factor(
                toks.deep_view(),
                pos as int,
                params.deep_view(),
                st.deep_view(),
            ),
        ),
        r matches Ok(t) ==> pos < t.1 < toks.len(),
    decreases toks.len() - pos, 6int,
{
    match &toks[pos].kind {
        TokenKind::KwTrue => Ok((BooleanExpression::Constant(true), pos + 1, st)),
        TokenKind::KwFalse => Ok((BooleanExpression::Constant(false), pos + 1, st)),
        _ => {
            let saved = clone_state(&st);
            match parse_comparison(toks, pos, params, st) {
                Ok((b, p, st1)) => Ok((b, p, st1)),
                Err(e) => {
                    if matches!(&e, BuildError::Parse { .. }) {
                        if matches!(&toks[pos].kind, TokenKind::LParen) {
                            proof {
                                assert(pos as int != toks.len() - 1);
                            }
                            match parse_bool_expr(toks, pos + 1, params, saved) {
                                Err(e2) => Err(e2),
                                Ok((b, p, st1)) => {
                                    if matches!(&toks[p].kind, TokenKind::RParen) {
                                        Ok((b, p + 1, st1))
                                    } else {
                                        Err(parse_err(toks, p, ")"))
                                    }
                                },
                            }
                        } else {
                            Err(BuildError::MalformedBooleanExpression)
                        }
                    } else {
                        Err(e)
                    }
                },
            }
        },
    }
}

#[verifier::rlimit(60)]
fn parse_comparison(toks: &Vec<Token>, pos: usize, params: &Vec<String>, st: BuildState) -> (r:
    Result<(BooleanExpression, usize, BuildState), BuildError>)
    requires
        wf_tokens(toks.deep_view()),
        pos < toks.len(),
    ensures
        bool_result_matches(
            r,
            spec_parse_comparison(
                toks.deep_view(),
                pos as int,
                params.deep_view(),
                st.deep_view(),
            ),
        ),
        r matches Ok(t) ==> pos < t.1 < toks.len(),
    decreases toks.len() - pos, 5int,
{
    match parse_expr(toks, pos, params, st) {
        Err(e) => Err(e),
        Ok((l, p, st1)) => {
            match comparator_token(&toks[p].kind) {
                Some(op) => {
                    match parse_expr(toks, p + 1, params, st1) {
                        Err(e) => Err(e),
                        Ok((rhs, p2, st2)) => Ok(
                            (
                                BooleanExpression::Comparison {
                                    left: Box::new(l),
                                    op,
                                    right: Box::new(rhs),
                                },
                                p2,
                                st2,
                            ),
                        ),
                    }
                },
                None => Err(parse_err(toks, p, "a comparison operator")),
            }
        },
    }
}

fn parse_main(
    toks: &Vec<Token>,
    pos: usize,
    params: &Vec<String>,
    st: BuildState,
    acc: Vec<Assignment>,
) -> (r: Result<(AstNode, usize, BuildState), BuildError>)
    requires
        wf_tokens(toks.deep_view()),
        pos < toks.len(),
    ensures
        node_result_matches(
            r,
            spec_parse_main(
                toks.deep_view(),
                pos as int,
                params.deep_view(),
                st.deep_view(),
                acc.deep_view(),
            ),
        ),
        r matches Ok(t) ==> pos < t.1 < toks.len(),
    decreases toks.len() - pos, 9int,
{
    let is_assignment = matches!(&toks[pos].kind, TokenKind::Ident(_)) && pos + 1 < toks.len()
        && matches!(&toks[pos + 1].kind, TokenKind::Assign);
    if is_assignment {
        let name = ident_name(&toks[pos].kind);
        if contains_string(params, &name) {
            Err(BuildError::AssignToParameter(name))
        } else {
            proof {
                assert(pos + 1 != toks.len() - 1);
            }
            match parse_expr(toks, pos + 2, params, push_variable(st, name.clone())) {
                Err(e) => Err(e),
                Ok((value, p, st1)) => {
                    if matches!(&toks[p].kind, TokenKind::Semicolon) {
                        let ghost accv = acc.deep_view();
                        let ghost namev = name@;
                        let ghost valuev = value.deep_view();
                        let mut acc2 = acc;
                        acc2.push(Assignment { identifier: name, expression: value });
                        proof {
                            assert(acc2.deep_view() =~= accv.push(
                                AssignmentView { identifier: namev, expression: valuev },
                            ));
                        }
                        parse_main(toks, p + 1, params, st1, acc2)
                    } else {
                        Err(parse_err(toks, p, ";"))
                    }
                },
            }
        }
    } else {
        match parse_expr(toks, pos, params, st) {
            Err(e) => Err(e),
            Ok((n, p, st1)) => {
                let node = AstNode::AssignmentsAndExpression {
                    assignments: acc,
                    expression: Box::new(n),
                };
                proof {
                    crate::ast::lemma_assignments_view(
                        node->AssignmentsAndExpression_assignments@,
                    );
                    assert(assignments_view(node->AssignmentsAndExpression_assignments@)
                        =~= node->AssignmentsAndExpression_assignments.deep_view());
                }
                Ok((node, p, st1))
            },
        }
    }
}

fn dedup_strings(v: Vec<String>) -> (r: Vec<String>)
    ensures
        r.deep_view() == dedup_first(v.deep_view()),
{
    let mut out: Vec<String> = Vec::new();
    let mut i: usize = 0;
    while i < v.len()
        invariant
            i <= v@.len(),
            dedup_first(v.deep_view()) == out.deep_view() + dedup_first_from(
                v.deep_view(),
                i as int,
            ),
        decreases v@.len() - i,
    {
        let ghost outv = out.deep_view();
        let dup = contains_prefix(&v, i, &v[i]);
        if !dup {
            out.push(v[i].clone());
            proof {
                assert(out.deep_view() =~= outv.push(v.deep_view()[i as int]));
                assert(outv.push(v.deep_view()[i as int]) + dedup_first_from(
                    v.deep_view(),
                    i + 1,
                ) =~= outv + (seq![v.deep_view()[i as int]] + dedup_first_from(
                    v.deep_view(),
                    i + 1,
                )));
            }
        }
        i += 1;
    }
    proof {
        assert(dedup_first_from(v.deep_view(), v@.len() as int) =~= Seq::<Seq<char>>::empty());
        assert(out.deep_view() + Seq::<Seq<char>>::empty() =~= out.deep_view());
    }
    out
}

proof fn lemma_tokenize_wf(s: Seq<char>, pos: int)
    ensures
        crate::token::spec_tokenize_from(s, pos) matches Ok(ts) ==> wf_tokens(ts),
    decreases s.len() - pos,
{
    if 0 <= pos < s.len() {
        let c = s[pos];
        if crate::token::is_space(c) {
            lemma_tokenize_wf(s, pos + 1);
        } else if crate::token::is_digit(c) {
            crate::token::lemma_number_end_bounds(s, pos);
            lemma_tokenize_wf(s, crate::token::number_end(s, pos));
        } else if crate::token::is_ident_start(c) {
            crate::token::lemma_ident_end_bounds(s, pos);
            lemma_tokenize_wf(s, crate::token::ident_end(s, pos));
        } else {
            lemma_tokenize_wf(s, pos + 1);
            if pos + 2 <= s.len() {
                lemma_tokenize_wf(s, pos + 2);
            }
        }
    }
}

impl Ast {
    /// Builds an [`Ast`] from an exported-function name, the ordered
    /// parameter names, and expression source text.
    ///
    /// The result is exactly [`spec_build`]: the parsed and validated tree,
    /// or the first fatal error of the build. `name` and the parameters are
    /// spliced verbatim into generated source, so callers supply
    /// identifier-shaped names.
    pub fn new(name: String, parameters: &[String], input: &str) -> (r: Result<Ast, BuildError>)
        ensures
            ({
                let s = spec_build(name@, parameters.deep_view(), input@);
                match r {
                    Ok(ast) => s matches Ok(av) && ast.deep_view() == av,
                    Err(e) => s matches Err(ev) && ev == e.deep_view(),
                }
            }),
            r matches Ok(ast) ==> distinct_names(ast.deep_view().imports),
    {
        proof {
            lemma_build_imports_distinct(name@, parameters.deep_view(), input@);
        }
        let toks = match tokenize(input) {
            Ok(t) => t,
            Err(e) => {
                return Err(e);
            },
        };
        proof {
            lemma_tokenize_wf(input@, 0);
        }
        let params_vec = clone_string_slice(parameters);
        let st = BuildState { variables: Vec::new(), imports: Vec::new() };
        proof {
            assert(st.deep_view().variables =~= empty_state().variables);
            assert(st.deep_view().imports =~= empty_state().imports);
        }
        let acc: Vec<Assignment> = Vec::new();
        proof {
            assert(acc.deep_view() =~= Seq::<AssignmentView>::empty());
        }
        match parse_main(&toks, 0, &params_vec, st, acc) {
            Err(e) => Err(e),
            Ok((root, p, st1)) => {
                if matches!(&toks[p].kind, TokenKind::End) {
                    let imports = dedup_strings(st1.imports);
                    let ast = Ast::assemble(name, root, params_vec, st1.variables, imports);
                    Ok(ast)
                } else {
                    Err(parse_err(&toks, p, "end of input"))
                }
            },
        }
    }
}

} // verus!
