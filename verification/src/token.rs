//! Lexical analysis of expression source text.
//!
//! [`tokenize`] turns source text into a token list ending in a sentinel
//! [`TokenKind::End`] token. Its result is pinned exactly by the spec-level
//! scanner [`spec_tokenize`]: maximal-munch scanning, case-sensitive keywords
//! `if` / `else` / `true` / `false`, numbers of the form `digits(.digits)?`,
//! and the operator and punctuation set of the expression grammar.

use vstd::prelude::*;
use vstd::string::StrSliceExecFns;

use crate::error::{result_view, BuildError, BuildErrorView};

verus! {

/// One lexical token of the expression language.
#[derive(Debug, Clone, PartialEq)]
pub enum TokenKind {
    /// An unsigned numeric literal, kept as its source text.
    Number(String),
    /// A name that is not a keyword.
    Ident(String),
    KwIf,
    KwElse,
    KwTrue,
    KwFalse,
    Plus,
    Minus,
    Star,
    Slash,
    /// The exponentiation operator `**`.
    Power,
    LParen,
    RParen,
    LBrace,
    RBrace,
    Comma,
    Semicolon,
    /// The assignment operator `=`.
    Assign,
    AndAnd,
    OrOr,
    EqEq,
    NotEq,
    Lt,
    Le,
    Gt,
    Ge,
    /// Sentinel token standing at the end of every token list.
    End,
}

/// A token together with the character position where it starts.
#[derive(Debug, Clone, PartialEq)]
pub struct Token {
    pub kind: TokenKind,
    pub position: usize,
}

/// The mathematical image of a [`TokenKind`]: token text as `Seq<char>`.
pub enum TokenKindView {
    Number(Seq<char>),
    Ident(Seq<char>),
    KwIf,
    KwElse,
    KwTrue,
    KwFalse,
    Plus,
    Minus,
    Star,
    Slash,
    Power,
    LParen,
    RParen,
    LBrace,
    RBrace,
    Comma,
    Semicolon,
    Assign,
    AndAnd,
    OrOr,
    EqEq,
    NotEq,
    Lt,
    Le,
    Gt,
    Ge,
    End,
}

/// The mathematical image of a [`Token`].
pub struct TokenView {
    pub kind: TokenKindView,
    pub position: int,
}

impl DeepView for TokenKind {
    type V = TokenKindView;

    open spec fn deep_view(&self) -> TokenKindView {
        match self {
            TokenKind::Number(t) => TokenKindView::Number(t@),
            TokenKind::Ident(t) => TokenKindView::Ident(t@),
            TokenKind::KwIf => TokenKindView::KwIf,
            TokenKind::KwElse => TokenKindView::KwElse,
            TokenKind::KwTrue => TokenKindView::KwTrue,
            TokenKind::KwFalse => TokenKindView::KwFalse,
            TokenKind::Plus => TokenKindView::Plus,
            TokenKind::Minus => TokenKindView::Minus,
            TokenKind::Star => TokenKindView::Star,
            TokenKind::Slash => TokenKindView::Slash,
            TokenKind::Power => TokenKindView::Power,
            TokenKind::LParen => TokenKindView::LParen,
            TokenKind::RParen => TokenKindView::RParen,
            TokenKind::LBrace => TokenKindView::LBrace,
            TokenKind::RBrace => TokenKindView::RBrace,
            TokenKind::Comma => TokenKindView::Comma,
            TokenKind::Semicolon => TokenKindView::Semicolon,
            TokenKind::Assign => TokenKindView::Assign,
            TokenKind::AndAnd => TokenKindView::AndAnd,
            TokenKind::OrOr => TokenKindView::OrOr,
            TokenKind::EqEq => TokenKindView::EqEq,
            TokenKind::NotEq => TokenKindView::NotEq,
            TokenKind::Lt => TokenKindView::Lt,
            TokenKind::Le => TokenKindView::Le,
            TokenKind::Gt => TokenKindView::Gt,
            TokenKind::Ge => TokenKindView::Ge,
            TokenKind::End => TokenKindView::End,
        }
    }
}

impl DeepView for Token {
    type V = TokenView;

    open spec fn deep_view(&self) -> TokenView {
        TokenView { kind: self.kind.deep_view(), position: self.position as int }
    }
}

/// A decimal digit.
pub open spec fn is_digit(c: char) -> bool {
    '0' <= c && c <= '9'
}

/// A character that may start an identifier: a letter or an underscore.
pub open spec fn is_ident_start(c: char) -> bool {
    ('a' <= c && c <= 'z') || ('A' <= c && c <= 'Z') || c == '_'
}

/// A character that may continue an identifier.
pub open spec fn is_ident_char(c: char) -> bool {
    is_ident_start(c) || is_digit(c)
}

/// Whitespace skipped between tokens.
pub open spec fn is_space(c: char) -> bool {
    c == ' ' || c == '\t' || c == '\n' || c == '\r'
}

fn char_is_digit(c: char) -> (r: bool)
    ensures
        r == is_digit(c),
{
    '0' <= c && c <= '9'
}

fn char_is_ident_start(c: char) -> (r: bool)
    ensures
        r == is_ident_start(c),
{
    ('a' <= c && c <= 'z') || ('A' <= c && c <= 'Z') || c == '_'
}

fn char_is_ident_char(c: char) -> (r: bool)
    ensures
        r == is_ident_char(c),
{
    char_is_ident_start(c) || char_is_digit(c)
}

fn char_is_space(c: char) -> (r: bool)
    ensures
        r == is_space(c),
{
    c == ' ' || c == '\t' || c == '\n' || c == '\r'
}

/// First position at or after `pos` that does not hold a digit.
pub open spec fn digits_end(s: Seq<char>, pos: int) -> int
    decreases s.len() - pos,
{
    if 0 <= pos < s.len() && is_digit(s[pos]) {
        digits_end(s, pos + 1)
    } else {
        pos
    }
}

/// First position at or after `pos` that does not hold an identifier
/// character.
pub open spec fn ident_end(s: Seq<char>, pos: int) -> int
    decreases s.len() - pos,
{
    if 0 <= pos < s.len() && is_ident_char(s[pos]) {
        ident_end(s, pos + 1)
    } else {
        pos
    }
}

/// End position of a numeric literal starting at `pos`: an integer part and,
/// when a dot with at least one following digit comes next, a fractional
/// part.
pub open spec fn number_end(s: Seq<char>, pos: int) -> int {
    let d = digits_end(s, pos);
    if d < s.len() && s[d] == '.' && d + 1 < s.len() && is_digit(s[d + 1]) {
        digits_end(s, d + 1)
    } else {
        d
    }
}

proof fn lemma_digits_end_bounds(s: Seq<char>, pos: int)
    requires
        0 <= pos <= s.len(),
    ensures
        pos <= digits_end(s, pos) <= s.len(),
    decreases s.len() - pos,
{
    if pos < s.len() && is_digit(s[pos]) {
        lemma_digits_end_bounds(s, pos + 1);
    }
}

pub proof fn lemma_ident_end_bounds(s: Seq<char>, pos: int)
    requires
        0 <= pos <= s.len(),
    ensures
        pos <= ident_end(s, pos) <= s.len(),
        (pos < s.len() && is_ident_char(s[pos])) ==> pos < ident_end(s, pos),
    decreases s.len() - pos,
{
    if pos < s.len() && is_ident_char(s[pos]) {
        lemma_ident_end_bounds(s, pos + 1);
    }
}

pub proof fn lemma_number_end_bounds(s: Seq<char>, pos: int)
    requires
        0 <= pos <= s.len(),
    ensures
        pos <= number_end(s, pos) <= s.len(),
        (pos < s.len() && is_digit(s[pos])) ==> pos < number_end(s, pos),
{
    lemma_digits_end_bounds(s, pos);
    let d = digits_end(s, pos);
    if pos < s.len() && is_digit(s[pos]) {
        lemma_digits_end_bounds(s, pos + 1);
    }
    if d < s.len() && s[d] == '.' && d + 1 < s.len() && is_digit(s[d + 1]) {
        lemma_digits_end_bounds(s, d + 1);
        assert(digits_end(s, d + 1) >= d + 1);
    }
}

/// The token kind of an identifier-shaped word: one of the four keywords, or
/// an identifier.
pub open spec fn ident_kind(text: Seq<char>) -> TokenKindView {
    if text == "if"@ {
        TokenKindView::KwIf
    } else if text == "else"@ {
        TokenKindView::KwElse
    } else if text == "true"@ {
        TokenKindView::KwTrue
    } else if text == "false"@ {
        TokenKindView::KwFalse
    } else {
        TokenKindView::Ident(text)
    }
}

fn ident_token_kind(text: String) -> (k: TokenKind)
    ensures
        k.deep_view() == ident_kind(text@),
{
    if text == "if".to_owned() {
        TokenKind::KwIf
    } else if text == "else".to_owned() {
        TokenKind::KwElse
    } else if text == "true".to_owned() {
        TokenKind::KwTrue
    } else if text == "false".to_owned() {
        TokenKind::KwFalse
    } else {
        TokenKind::Ident(text)
    }
}

/// Prepends a token to a scan result.
pub open spec fn tok_cons(
    t: TokenView,
    rest: Result<Seq<TokenView>, BuildErrorView>,
) -> Result<Seq<TokenView>, BuildErrorView> {
    match rest {
        Ok(ts) => Ok(seq![t] + ts),
        Err(e) => Err(e),
    }
}

/// The scanner, from position `pos` on: skips whitespace, scans one token by
/// maximal munch, and continues behind it. A scan of the whole remainder ends
/// in a single [`TokenKindView::End`] token standing at the input's length.
pub open spec fn spec_tokenize_from(s: Seq<char>, pos: int) -> Result<
    Seq<TokenView>,
    BuildErrorView,
>
    decreases s.len() - pos,
    via spec_tokenize_from_dec
{
    if pos < 0 {
        Err(BuildErrorView::Parse { position: 0, expected: "a token"@ })
    } else if pos >= s.len() {
        Ok(seq![TokenView { kind: TokenKindView::End, position: s.len() as int }])
    } else {
        let c = s[pos];
        if is_space(c) {
            spec_tokenize_from(s, pos + 1)
        } else if is_digit(c) {
            let e = number_end(s, pos);
            tok_cons(
                TokenView { kind: TokenKindView::Number(s.subrange(pos, e)), position: pos },
                spec_tokenize_from(s, e),
            )
        } else if is_ident_start(c) {
            let e = ident_end(s, pos);
            tok_cons(
                TokenView { kind: ident_kind(s.subrange(pos, e)), position: pos },
                spec_tokenize_from(s, e),
            )
        } else if c == '+' {
            tok_cons(
                TokenView { kind: TokenKindView::Plus, position: pos },
                spec_tokenize_from(s, pos + 1),
            )
        } else if c == '-' {
            tok_cons(
                TokenView { kind: TokenKindView::Minus, position: pos },
                spec_tokenize_from(s, pos + 1),
            )
        } else if c == '*' {
            if pos + 1 < s.len() && s[pos + 1] == '*' {
                tok_cons(
                    TokenView { kind: TokenKindView::Power, position: pos },
                    spec_tokenize_from(s, pos + 2),
                )
            } else {
                tok_cons(
                    TokenView { kind: TokenKindView::Star, position: pos },
                    spec_tokenize_from(s, pos + 1),
                )
            }
        } else if c == '/' {
            tok_cons(
                TokenView { kind: TokenKindView::Slash, position: pos },
                spec_tokenize_from(s, pos + 1),
            )
        } else if c == '(' {
            tok_cons(
                TokenView { kind: TokenKindView::LParen, position: pos },
                spec_tokenize_from(s, pos + 1),
            )
        } else if c == ')' {
            tok_cons(
                TokenView { kind: TokenKindView::RParen, position: pos },
                spec_tokenize_from(s, pos + 1),
            )
        } else if c == '{' {
            tok_cons(
                TokenView { kind: TokenKindView::LBrace, position: pos },
                spec_tokenize_from(s, pos + 1),
            )
        } else if c == '}' {
            tok_cons(
                TokenView { kind: TokenKindView::RBrace, position: pos },
                spec_tokenize_from(s, pos + 1),
            )
        } else if c == ',' {
            tok_cons(
                TokenView { kind: TokenKindView::Comma, position: pos },
                spec_tokenize_from(s, pos + 1),
            )
        } else if c == ';' {
            tok_cons(
                TokenView { kind: TokenKindView::Semicolon, position: pos },
                spec_tokenize_from(s, pos + 1),
            )
        } else if c == '=' {
            if pos + 1 < s.len() && s[pos + 1] == '=' {
                tok_cons(
                    TokenView { kind: TokenKindView::EqEq, position: pos },
                    spec_tokenize_from(s, pos + 2),
                )
            } else {
                tok_cons(
                    TokenView { kind: TokenKindView::Assign, position: pos },
                    spec_tokenize_from(s, pos + 1),
                )
            }
        } else if c == '!' {
            if pos + 1 < s.len() && s[pos + 1] == '=' {
                tok_cons(
                    TokenView { kind: TokenKindView::NotEq, position: pos },
                    spec_tokenize_from(s, pos + 2),
                )
            } else {
                Err(BuildErrorView::Parse { position: pos, expected: "!="@ })
            }
        } else if c == '<' {
            if pos + 1 < s.len() && s[pos + 1] == '=' {
                tok_cons(
                    TokenView { kind: TokenKindView::Le, position: pos },
                    spec_tokenize_from(s, pos + 2),
                )
            } else {
                tok_cons(
                    TokenView { kind: TokenKindView::Lt, position: pos },
                    spec_tokenize_from(s, pos + 1),
                )
            }
        } else if c == '>' {
            if pos + 1 < s.len() && s[pos + 1] == '=' {
                tok_cons(
                    TokenView { kind: TokenKindView::Ge, position: pos },
                    spec_tokenize_from(s, pos + 2),
                )
            } else {
                tok_cons(
                    TokenView { kind: TokenKindView::Gt, position: pos },
                    spec_tokenize_from(s, pos + 1),
                )
            }
        } else if c == '&' {
            if pos + 1 < s.len() && s[pos + 1] == '&' {
                tok_cons(
                    TokenView { kind: TokenKindView::AndAnd, position: pos },
                    spec_tokenize_from(s, pos + 2),
                )
            } else {
                Err(BuildErrorView::Parse { position: pos, expected: "&&"@ })
            }
        } else if c == '|' {
            if pos + 1 < s.len() && s[pos + 1] == '|' {
                tok_cons(
                    TokenView { kind: TokenKindView::OrOr, position: pos },
                    spec_tokenize_from(s, pos + 2),
                )
            } else {
                Err(BuildErrorView::Parse { position: pos, expected: "||"@ })
            }
        } else {
            Err(BuildErrorView::Parse { position: pos, expected: "a token"@ })
        }
    }
}

#[via_fn]
proof fn spec_tokenize_from_dec(s: Seq<char>, pos: int) {
    if 0 <= pos < s.len() {
        lemma_number_end_bounds(s, pos);
        lemma_ident_end_bounds(s, pos);
    }
}

/// The scan of a whole input.
pub open spec fn spec_tokenize(s: Seq<char>) -> Result<Seq<TokenView>, BuildErrorView> {
    spec_tokenize_from(s, 0)
}

fn scan_digits(input: &str, from: usize) -> (e: usize)
    requires
        from <= input@.len(),
    ensures
        e as int == digits_end(input@, from as int),
        from <= e <= input@.len(),
{
    let n = input.unicode_len();
    let mut e = from;
    loop
        invariant
            from <= e <= n,
            n == input@.len(),
            digits_end(input@, from as int) == digits_end(input@, e as int),
        ensures
            from <= e <= n,
            e as int == digits_end(input@, from as int),
        decreases n - e,
    {
        if e < n {
            let c = input.get_char(e);
            if char_is_digit(c) {
                e = e + 1;
            } else {
                break ;
            }
        } else {
            break ;
        }
    }
    e
}

fn scan_ident(input: &str, from: usize) -> (e: usize)
    requires
        from <= input@.len(),
    ensures
        e as int == ident_end(input@, from as int),
        from <= e <= input@.len(),
{
    let n = input.unicode_len();
    let mut e = from;
    loop
        invariant
            from <= e <= n,
            n == input@.len(),
            ident_end(input@, from as int) == ident_end(input@, e as int),
        ensures
            from <= e <= n,
            e as int == ident_end(input@, from as int),
        decreases n - e,
    {
        if e < n {
            let c = input.get_char(e);
            if char_is_ident_char(c) {
                e = e + 1;
            } else {
                break ;
            }
        } else {
            break ;
        }
    }
    e
}

fn cons_token(t: Token, rest: Result<Vec<Token>, BuildError>) -> (r: Result<Vec<Token>, BuildError>)
    ensures
        result_view(r) == tok_cons(t.deep_view(), result_view(rest)),
{
    let ghost tv = t.deep_view();
    match rest {
        Ok(mut v) => {
            let ghost ov = v.deep_view();
            v.insert(0, t);
            proof {
                assert(v.deep_view() =~= seq![tv] + ov);
            }
            Ok(v)
        },
        Err(e) => Err(e),
    }
}

fn tokenize_from(input: &str, pos: usize) -> (r: Result<Vec<Token>, BuildError>)
    requires
        pos <= input@.len(),
    ensures
        result_view(r) == spec_tokenize_from(input@, pos as int),
    decreases input@.len() - pos,
{
    let n = input.unicode_len();
    if pos >= n {
        let mut v: Vec<Token> = Vec::new();
        v.push(Token { kind: TokenKind::End, position: n });
        proof {
            assert(v.deep_view() =~= seq![
                TokenView { kind: TokenKindView::End, position: input@.len() as int },
            ]);
        }
        Ok(v)
    } else {
        let c = input.get_char(pos);
        if char_is_space(c) {
            tokenize_from(input, pos + 1)
        } else if char_is_digit(c) {
            proof {
                lemma_number_end_bounds(input@, pos as int);
            }
            let d = scan_digits(input, pos);
            let e: usize = if d < n && input.get_char(d) == '.' && d + 1 < n && char_is_digit(
                input.get_char(d + 1),
            ) {
                scan_digits(input, d + 1)
            } else {
                d
            };
            assert(e as int == number_end(input@, pos as int));
            let text = input.substring_char(pos, e).to_owned();
            cons_token(
                Token { kind: TokenKind::Number(text), position: pos },
                tokenize_from(input, e),
            )
        } else if char_is_ident_start(c) {
            proof {
                lemma_ident_end_bounds(input@, pos as int);
            }
            let e = scan_ident(input, pos);
            let text = input.substring_char(pos, e).to_owned();
            let kind = ident_token_kind(text);
            cons_token(Token { kind, position: pos }, tokenize_from(input, e))
        } else if c == '+' {
            cons_token(
                Token { kind: TokenKind::Plus, position: pos },
                tokenize_from(input, pos + 1),
            )
        } else if c == '-' {
            cons_token(
                Token { kind: TokenKind::Minus, position: pos },
                tokenize_from(input, pos + 1),
            )
        } else if c == '*' {
            if pos + 1 < n && input.get_char(pos + 1) == '*' {
                cons_token(
                    Token { kind: TokenKind::Power, position: pos },
                    tokenize_from(input, pos + 2),
                )
            } else {
                cons_token(
                    Token { kind: TokenKind::Star, position: pos },
                    tokenize_from(input, pos + 1),
                )
            }
        } else if c == '/' {
            cons_token(
                Token { kind: TokenKind::Slash, position: pos },
                tokenize_from(input, pos + 1),
            )
        } else if c == '(' {
            cons_token(
                Token { kind: TokenKind::LParen, position: pos },
                tokenize_from(input, pos + 1),
            )
        } else if c == ')' {
            cons_token(
                Token { kind: TokenKind::RParen, position: pos },
                tokenize_from(input, pos + 1),
            )
        } else if c == '{' {
            cons_token(
                Token { kind: TokenKind::LBrace, position: pos },
                tokenize_from(input, pos + 1),
            )
        } else if c == '}' {
            cons_token(
                Token { kind: TokenKind::RBrace, position: pos },
                tokenize_from(input, pos + 1),
            )
        } else if c == ',' {
            cons_token(
                Token { kind: TokenKind::Comma, position: pos },
                tokenize_from(input, pos + 1),
            )
        } else if c == ';' {
            cons_token(
                Token { kind: TokenKind::Semicolon, position: pos },
                tokenize_from(input, pos + 1),
            )
        } else if c == '=' {
            if pos + 1 < n && input.get_char(pos + 1) == '=' {
                cons_token(
                    Token { kind: TokenKind::EqEq, position: pos },
                    tokenize_from(input, pos + 2),
                )
            } else {
                cons_token(
                    Token { kind: TokenKind::Assign, position: pos },
                    tokenize_from(input, pos + 1),
                )
            }
        } else if c == '!' {
            if pos + 1 < n && input.get_char(pos + 1) == '=' {
                cons_token(
                    Token { kind: TokenKind::NotEq, position: pos },
                    tokenize_from(input, pos + 2),
                )
            } else {
                Err(BuildError::Parse { position: pos, expected: "!=".to_owned() })
            }
        } else if c == '<' {
            if pos + 1 < n && input.get_char(pos + 1) == '=' {
                cons_token(
                    Token { kind: TokenKind::Le, position: pos },
                    tokenize_from(input, pos + 2),
                )
            } else {
                cons_token(Token { kind: TokenKind::Lt, position: pos }, tokenize_from(input, pos + 1))
            }
        } else if c == '>' {
            if pos + 1 < n && input.get_char(pos + 1) == '=' {
                cons_token(
                    Token { kind: TokenKind::Ge, position: pos },
                    tokenize_from(input, pos + 2),
                )
            } else {
                cons_token(Token { kind: TokenKind::Gt, position: pos }, tokenize_from(input, pos + 1))
            }
        } else if c == '&' {
            if pos + 1 < n && input.get_char(pos + 1) == '&' {
                cons_token(
                    Token { kind: TokenKind::AndAnd, position: pos },
                    tokenize_from(input, pos + 2),
                )
            } else {
                Err(BuildError::Parse { position: pos, expected: "&&".to_owned() })
            }
        } else if c == '|' {
            if pos + 1 < n && input.get_char(pos + 1) == '|' {
                cons_token(
                    Token { kind: TokenKind::OrOr, position: pos },
                    tokenize_from(input, pos + 2),
                )
            } else {
                Err(BuildError::Parse { position: pos, expected: "||".to_owned() })
            }
        } else {
            Err(BuildError::Parse { position: pos, expected: "a token".to_owned() })
        }
    }
}

/// Scans a whole input into tokens ending in the [`TokenKind::End`] sentinel.
///
/// The result is exactly [`spec_tokenize`] of the input's characters: either
/// the token list, or the syntax error at the first character that fits no
/// token.
pub fn tokenize(input: &str) -> (r: Result<Vec<Token>, BuildError>)
    ensures
        result_view(r) == spec_tokenize(input@),
{
    tokenize_from(input, 0)
}

} // verus!
