//! The parser: tokens to a program and a list of syntax errors.
//!
//! Statements are parsed by recursive descent, expressions by operator
//! precedence: after a prefix form is read, infix operators are taken as
//! long as the next one binds tighter than the level the caller asked
//! for, and the right operand of each is parsed at that operator's own
//! level. An unexpected token is recorded as an error and parsing goes on
//! with what follows.
//!
//! A position names a token of the input; every position at or past the
//! end reads as the end-of-input token. Each parsing function starts with
//! the parser on the first token of what it parses and leaves it on the
//! last token that it took.

use vstd::prelude::*;
use vstd::string::*;
use crate::ast::{
    expr_text, exprs_view, pairs_view, stmts_view, BlockStatement, Expression, ExprView, InfixOp,
    PrefixOp, Program, Statement, StmtView,
};
use crate::lexer::eof_token;
use crate::text::{parse_decimal, parse_i64, strings_view};
use crate::token::{kind_text, tokens_view, Token, TokenKind, TokenView};

verus! {

/// The outcome of parsing one form: what was built, if anything; by how
/// many tokens the parser moved; and the errors that were recorded.
pub struct Parsed<T> {
    pub value: Option<T>,
    pub used: nat,
    pub errors: Seq<Seq<char>>,
}

pub open spec fn failed<T>(used: nat, errors: Seq<Seq<char>>) -> Parsed<T> {
    Parsed { value: None, used, errors }
}

pub open spec fn parsed<T>(value: T, used: nat, errors: Seq<Seq<char>>) -> Parsed<T> {
    Parsed { value: Some(value), used, errors }
}

/// The outcome `rest`, reached after `used` tokens and `errors`.
pub open spec fn after<T>(used: nat, errors: Seq<Seq<char>>, rest: Parsed<T>) -> Parsed<T> {
    Parsed { value: rest.value, used: used + rest.used, errors: errors + rest.errors }
}

/// The token at a position.
pub open spec fn token_or_eof(ts: Seq<TokenView>, pos: nat) -> TokenView {
    if pos < ts.len() {
        ts[pos as int]
    } else {
        eof_token()
    }
}

/// The kind of the token at a position.
pub open spec fn kind_at(ts: Seq<TokenView>, pos: nat) -> TokenKind {
    token_or_eof(ts, pos).kind
}

/// How many tokens stand at or after a position.
pub open spec fn remaining(ts: Seq<TokenView>, pos: nat) -> nat {
    if pos < ts.len() {
        (ts.len() - pos) as nat
    } else {
        0
    }
}

/// By how much the parser moves when it steps to the next token: it does
/// not step past the end.
pub open spec fn step(ts: Seq<TokenView>, pos: nat) -> nat {
    if pos < ts.len() {
        1
    } else {
        0
    }
}

pub open spec fn lowest() -> nat {
    0
}

pub open spec fn prefix_level() -> nat {
    5
}

/// How tightly a token binds as an infix operator, from 1 for equality up
/// to 7 for indexing; 0 for a token that is no infix operator.
pub open spec fn precedence(kind: TokenKind) -> nat {
    match kind {
        TokenKind::Eq => 1,
        TokenKind::NotEq => 1,
        TokenKind::Lt => 2,
        TokenKind::Gt => 2,
        TokenKind::Plus => 3,
        TokenKind::Minus => 3,
        TokenKind::Asterisk => 4,
        TokenKind::Slash => 4,
        TokenKind::LParen => 6,
        TokenKind::LBracket => 7,
        _ => 0,
    }
}

/// The binary operator that a token stands for.
pub open spec fn binary_op(kind: TokenKind) -> Option<InfixOp> {
    match kind {
        TokenKind::Eq => Some(InfixOp::Eq),
        TokenKind::NotEq => Some(InfixOp::NotEq),
        TokenKind::Lt => Some(InfixOp::Lt),
        TokenKind::Gt => Some(InfixOp::Gt),
        TokenKind::Plus => Some(InfixOp::Plus),
        TokenKind::Minus => Some(InfixOp::Minus),
        TokenKind::Asterisk => Some(InfixOp::Asterisk),
        TokenKind::Slash => Some(InfixOp::Slash),
        _ => None,
    }
}

pub open spec fn expect_error(expected: TokenKind, got: TokenKind) -> Seq<char> {
    "expected next token to be "@ + kind_text(expected) + ", got "@ + kind_text(got)
        + " instead"@
}

pub open spec fn no_prefix_error(kind: TokenKind) -> Seq<char> {
    "no prefix parse function for "@ + kind_text(kind) + " found"@
}

pub open spec fn integer_error(literal: Seq<char>) -> Seq<char> {
    "could not parse "@ + literal + " as integer"@
}

pub open spec fn parameter_error(e: ExprView) -> Seq<char> {
    "function parameter is not an identifier: "@ + expr_text(e)
}

/// The names of a parameter list, from position `i` on, added to `acc`;
/// or the message for the first entry that is no identifier.
pub open spec fn parameter_names(es: Seq<ExprView>, i: nat, acc: Seq<Seq<char>>) -> Result<
    Seq<Seq<char>>,
    Seq<char>,
>
    decreases es.len() - i,
{
    if i >= es.len() {
        Ok(acc)
    } else {
        match es[i as int] {
            ExprView::Identifier { name } => parameter_names(es, i + 1, acc.push(name)),
            other => Err(parameter_error(other)),
        }
    }
}

/// An expression that starts at `pos`, with every infix operator that
/// binds tighter than `level`.
pub open spec fn parse_expression_spec(ts: Seq<TokenView>, pos: nat, level: nat) -> Parsed<
    ExprView,
>
    decreases remaining(ts, pos), 2int,
{
    let left = parse_prefix_spec(ts, pos);
    match left.value {
        None => left,
        Some(e) => after(
            left.used,
            left.errors,
            parse_infix_loop_spec(ts, pos + left.used, level, e),
        ),
    }
}

/// The form that the token at `pos` starts: a literal, a name, a prefix
/// operator with its operand, a group in parentheses, an `if`, a function
/// literal, an array or a hash.
pub open spec fn parse_prefix_spec(ts: Seq<TokenView>, pos: nat) -> Parsed<ExprView>
    decreases remaining(ts, pos), 1int,
{
    let t = token_or_eof(ts, pos);
    match t.kind {
        TokenKind::Ident => parsed(ExprView::Identifier { name: t.literal }, 0, Seq::empty()),
        TokenKind::Int => match parse_decimal(t.literal) {
            Some(value) => parsed(ExprView::IntegerLiteral { value }, 0, Seq::empty()),
            None => failed(0, seq![integer_error(t.literal)]),
        },
        TokenKind::Str => parsed(ExprView::StringLiteral { value: t.literal }, 0, Seq::empty()),
        TokenKind::True => parsed(ExprView::BooleanLiteral { value: true }, 0, Seq::empty()),
        TokenKind::False => parsed(ExprView::BooleanLiteral { value: false }, 0, Seq::empty()),
        TokenKind::Bang => {
            let r = parse_expression_spec(ts, pos + 1, prefix_level());
            match r.value {
                Some(right) => parsed(
                    ExprView::Prefix { operator: PrefixOp::Bang, right: Box::new(right) },
                    1 + r.used,
                    r.errors,
                ),
                None => failed(1 + r.used, r.errors),
            }
        },
        TokenKind::Minus => {
            let r = parse_expression_spec(ts, pos + 1, prefix_level());
            match r.value {
                Some(right) => parsed(
                    ExprView::Prefix { operator: PrefixOp::Minus, right: Box::new(right) },
                    1 + r.used,
                    r.errors,
                ),
                None => failed(1 + r.used, r.errors),
            }
        },
        TokenKind::LParen => {
            let r = parse_expression_spec(ts, pos + 1, lowest());
            match r.value {
                Some(e) => {
                    let next = kind_at(ts, pos + 1 + r.used + 1);
                    if next == TokenKind::RParen {
                        parsed(e, 1 + r.used + 1, r.errors)
                    } else {
                        failed(1 + r.used, r.errors.push(expect_error(TokenKind::RParen, next)))
                    }
                },
                None => failed(1 + r.used, r.errors),
            }
        },
        TokenKind::If => parse_if_spec(ts, pos),
        TokenKind::Function => parse_function_spec(ts, pos),
        TokenKind::LBracket => {
            let r = parse_list_spec(ts, pos + 1, TokenKind::RBracket);
            match r.value {
                Some(elements) => parsed(ExprView::Array { elements }, 1 + r.used, r.errors),
                None => failed(1 + r.used, r.errors),
            }
        },
        TokenKind::LBrace => after(1, Seq::empty(), parse_hash_spec(ts, pos + 1, Seq::empty())),
        _ => failed(0, seq![no_prefix_error(t.kind)]),
    }
}

/// `if (condition) { ... }`, with `else { ... }` after it or not; the
/// parser is on `if`.
pub open spec fn parse_if_spec(ts: Seq<TokenView>, pos: nat) -> Parsed<ExprView>
    decreases remaining(ts, pos), 0int,
{
    if kind_at(ts, pos + 1) != TokenKind::LParen {
        failed(0, seq![expect_error(TokenKind::LParen, kind_at(ts, pos + 1))])
    } else {
        let c = parse_expression_spec(ts, pos + 2, lowest());
        let p1 = pos + 2 + c.used;
        match c.value {
            None => failed(2 + c.used, c.errors),
            Some(condition) => if kind_at(ts, p1 + 1) != TokenKind::RParen {
                failed(
                    2 + c.used,
                    c.errors.push(expect_error(TokenKind::RParen, kind_at(ts, p1 + 1))),
                )
            } else if kind_at(ts, p1 + 2) != TokenKind::LBrace {
                failed(
                    2 + c.used + 1,
                    c.errors.push(expect_error(TokenKind::LBrace, kind_at(ts, p1 + 2))),
                )
            } else {
                let b = parse_block_spec(ts, p1 + 3, Seq::empty());
                let p2 = p1 + 3 + b.used;
                match b.value {
                    None => failed(2 + c.used + 3 + b.used, c.errors + b.errors),
                    Some(consequence) => if kind_at(ts, p2 + 1) != TokenKind::Else {
                        parsed(
                            ExprView::If {
                                condition: Box::new(condition),
                                consequence,
                                alternative: None,
                            },
                            2 + c.used + 3 + b.used,
                            c.errors + b.errors,
                        )
                    } else if kind_at(ts, p2 + 2) != TokenKind::LBrace {
                        failed(
                            2 + c.used + 3 + b.used + 1,
                            (c.errors + b.errors).push(
                                expect_error(TokenKind::LBrace, kind_at(ts, p2 + 2)),
                            ),
                        )
                    } else {
                        let a = parse_block_spec(ts, p2 + 3, Seq::empty());
                        match a.value {
                            None => failed(
                                2 + c.used + 3 + b.used + 3 + a.used,
                                c.errors + b.errors + a.errors,
                            ),
                            Some(alternative) => parsed(
                                ExprView::If {
                                    condition: Box::new(condition),
                                    consequence,
                                    alternative: Some(alternative),
                                },
                                2 + c.used + 3 + b.used + 3 + a.used,
                                c.errors + b.errors + a.errors,
                            ),
                        }
                    },
                }
            },
        }
    }
}

/// `fn (parameters) { ... }`; the parser is on `fn`. The parameters are
/// read as a list of expressions, each of which has to be a name.
pub open spec fn parse_function_spec(ts: Seq<TokenView>, pos: nat) -> Parsed<ExprView>
    decreases remaining(ts, pos), 0int,
{
    if kind_at(ts, pos + 1) != TokenKind::LParen {
        failed(0, seq![expect_error(TokenKind::LParen, kind_at(ts, pos + 1))])
    } else {
        let l = parse_list_spec(ts, pos + 2, TokenKind::RParen);
        let p1 = pos + 2 + l.used;
        match l.value {
            None => failed(2 + l.used, l.errors),
            Some(entries) => match parameter_names(entries, 0, Seq::empty()) {
                Err(message) => failed(2 + l.used, l.errors.push(message)),
                Ok(parameters) => if kind_at(ts, p1 + 1) != TokenKind::LBrace {
                    failed(
                        2 + l.used,
                        l.errors.push(expect_error(TokenKind::LBrace, kind_at(ts, p1 + 1))),
                    )
                } else {
                    let b = parse_block_spec(ts, p1 + 2, Seq::empty());
                    match b.value {
                        None => failed(2 + l.used + 2 + b.used, l.errors + b.errors),
                        Some(body) => parsed(
                            ExprView::Function { parameters, body },
                            2 + l.used + 2 + b.used,
                            l.errors + b.errors,
                        ),
                    }
                },
            },
        }
    }
}

/// The infix operators that follow `left`, whose last token is at `pos`,
/// as long as each binds tighter than `level`. A semicolon ends the
/// expression.
pub open spec fn parse_infix_loop_spec(
    ts: Seq<TokenView>,
    pos: nat,
    level: nat,
    left: ExprView,
) -> Parsed<ExprView>
    decreases remaining(ts, pos), 0int,
{
    let next = kind_at(ts, pos + 1);
    if next != TokenKind::Semicolon && level < precedence(next) {
        let r = parse_infix_spec(ts, pos + 1, left);
        match r.value {
            None => failed(1 + r.used, r.errors),
            Some(e) => after(
                1 + r.used,
                r.errors,
                parse_infix_loop_spec(ts, pos + 1 + r.used, level, e),
            ),
        }
    } else {
        parsed(left, 0, Seq::empty())
    }
}

/// One infix form with `left` as its left side; the parser is on the
/// operator: a binary operator with its right operand, parsed at the
/// operator's level, so that operators of one level group to the left; a
/// call with its arguments; or an index in brackets.
pub open spec fn parse_infix_spec(ts: Seq<TokenView>, pos: nat, left: ExprView) -> Parsed<
    ExprView,
>
    decreases remaining(ts, pos), 1int,
{
    let kind = kind_at(ts, pos);
    match binary_op(kind) {
        Some(operator) => {
            let r = parse_expression_spec(ts, pos + 1, precedence(kind));
            match r.value {
                Some(right) => parsed(
                    ExprView::Infix { operator, left: Box::new(left), right: Box::new(right) },
                    1 + r.used,
                    r.errors,
                ),
                None => failed(1 + r.used, r.errors),
            }
        },
        None => if kind == TokenKind::LParen {
            let r = parse_list_spec(ts, pos + 1, TokenKind::RParen);
            match r.value {
                Some(arguments) => parsed(
                    ExprView::Call { function: Box::new(left), arguments },
                    1 + r.used,
                    r.errors,
                ),
                None => failed(1 + r.used, r.errors),
            }
        } else if kind == TokenKind::LBracket {
            let r = parse_expression_spec(ts, pos + 1, lowest());
            match r.value {
                Some(index) => {
                    let next = kind_at(ts, pos + 1 + r.used + 1);
                    if next == TokenKind::RBracket {
                        parsed(
                            ExprView::Index { left: Box::new(left), index: Box::new(index) },
                            1 + r.used + 1,
                            r.errors,
                        )
                    } else {
                        failed(
                            1 + r.used,
                            r.errors.push(expect_error(TokenKind::RBracket, next)),
                        )
                    }
                },
                None => failed(1 + r.used, r.errors),
            }
        } else {
            failed(0, Seq::empty())
        },
    }
}

/// A list of expressions separated by commas, up to the closing token
/// `end`; `first` is the position after the opening token.
pub open spec fn parse_list_spec(ts: Seq<TokenView>, first: nat, end: TokenKind) -> Parsed<
    Seq<ExprView>,
>
    decreases remaining(ts, first), 3int,
{
    if kind_at(ts, first) == end {
        parsed(Seq::empty(), 0, Seq::empty())
    } else {
        let r = parse_expression_spec(ts, first, lowest());
        match r.value {
            None => failed(r.used, r.errors),
            Some(e) => after(
                r.used,
                r.errors,
                parse_list_rest_spec(ts, first + r.used, end, seq![e]),
            ),
        }
    }
}

/// The rest of a list after the entries in `acc`, the last of which ends
/// at `pos`.
pub open spec fn parse_list_rest_spec(
    ts: Seq<TokenView>,
    pos: nat,
    end: TokenKind,
    acc: Seq<ExprView>,
) -> Parsed<Seq<ExprView>>
    decreases remaining(ts, pos), 0int,
{
    let next = kind_at(ts, pos + 1);
    if next == TokenKind::Comma {
        let r = parse_expression_spec(ts, pos + 2, lowest());
        match r.value {
            None => failed(2 + r.used, r.errors),
            Some(e) => after(
                2 + r.used,
                r.errors,
                parse_list_rest_spec(ts, pos + 2 + r.used, end, acc.push(e)),
            ),
        }
    } else if next == end {
        parsed(acc, 1, Seq::empty())
    } else {
        failed(0, seq![expect_error(end, next)])
    }
}

/// The pairs of a hash literal after those in `acc`, up to the closing
/// brace; `first` is the position after the opening brace or a comma.
pub open spec fn parse_hash_spec(
    ts: Seq<TokenView>,
    first: nat,
    acc: Seq<(ExprView, ExprView)>,
) -> Parsed<ExprView>
    decreases remaining(ts, first), 3int,
{
    if kind_at(ts, first) == TokenKind::RBrace {
        parsed(ExprView::Hash { pairs: acc }, 0, Seq::empty())
    } else {
        let k = parse_expression_spec(ts, first, lowest());
        let p1 = first + k.used;
        match k.value {
            None => failed(k.used, k.errors),
            Some(key) => if kind_at(ts, p1 + 1) != TokenKind::Colon {
                failed(k.used, k.errors.push(expect_error(TokenKind::Colon, kind_at(ts, p1 + 1))))
            } else {
                let v = parse_expression_spec(ts, p1 + 2, lowest());
                let p2 = p1 + 2 + v.used;
                match v.value {
                    None => failed(k.used + 2 + v.used, k.errors + v.errors),
                    Some(value) => if kind_at(ts, p2 + 1) == TokenKind::RBrace {
                        parsed(
                            ExprView::Hash { pairs: acc.push((key, value)) },
                            k.used + 2 + v.used + 1,
                            k.errors + v.errors,
                        )
                    } else if kind_at(ts, p2 + 1) == TokenKind::Comma {
                        after(
                            k.used + 2 + v.used + 2,
                            k.errors + v.errors,
                            parse_hash_spec(ts, p2 + 2, acc.push((key, value))),
                        )
                    } else {
                        failed(
                            k.used + 2 + v.used,
                            (k.errors + v.errors).push(
                                expect_error(TokenKind::Comma, kind_at(ts, p2 + 1)),
                            ),
                        )
                    },
                }
            },
        }
    }
}

/// One more if a semicolon follows position `pos`, which is then taken.
pub open spec fn semicolon(ts: Seq<TokenView>, pos: nat) -> nat {
    if kind_at(ts, pos + 1) == TokenKind::Semicolon {
        1
    } else {
        0
    }
}

/// A statement that starts at `pos`: `let name = value`, `return value`
/// or an expression, each with a semicolon after it or without.
pub open spec fn parse_statement_spec(ts: Seq<TokenView>, pos: nat) -> Parsed<StmtView>
    decreases remaining(ts, pos), 4int,
{
    let t = token_or_eof(ts, pos);
    if t.kind == TokenKind::Let {
        if kind_at(ts, pos + 1) != TokenKind::Ident {
            failed(0, seq![expect_error(TokenKind::Ident, kind_at(ts, pos + 1))])
        } else if kind_at(ts, pos + 2) != TokenKind::Assign {
            failed(1, seq![expect_error(TokenKind::Assign, kind_at(ts, pos + 2))])
        } else {
            let r = parse_expression_spec(ts, pos + 3, lowest());
            match r.value {
                None => failed(3 + r.used, r.errors),
                Some(value) => parsed(
                    StmtView::Let { name: token_or_eof(ts, pos + 1).literal, value },
                    3 + r.used + semicolon(ts, pos + 3 + r.used),
                    r.errors,
                ),
            }
        }
    } else if t.kind == TokenKind::Return {
        let r = parse_expression_spec(ts, pos + 1, lowest());
        match r.value {
            None => failed(1 + r.used, r.errors),
            Some(value) => parsed(
                StmtView::Return { value },
                1 + r.used + semicolon(ts, pos + 1 + r.used),
                r.errors,
            ),
        }
    } else {
        let r = parse_expression_spec(ts, pos, lowest());
        match r.value {
            None => failed(r.used, r.errors),
            Some(expression) => parsed(
                StmtView::Expression { expression },
                r.used + semicolon(ts, pos + r.used),
                r.errors,
            ),
        }
    }
}

/// The statements of a block after those in `acc`, up to the closing
/// brace; `first` is the position after the opening brace or after the
/// statement before. A statement that fails is left out. A block that
/// the input ends in is an error.
pub open spec fn parse_block_spec(ts: Seq<TokenView>, first: nat, acc: Seq<StmtView>) -> Parsed<
    Seq<StmtView>,
>
    decreases remaining(ts, first), 5int,
{
    let kind = kind_at(ts, first);
    if kind == TokenKind::RBrace {
        parsed(acc, 0, Seq::empty())
    } else if kind == TokenKind::Eof {
        failed(0, seq![expect_error(TokenKind::RBrace, TokenKind::Eof)])
    } else {
        let s = parse_statement_spec(ts, first);
        let p = first + s.used;
        after(
            s.used + step(ts, p),
            s.errors,
            parse_block_spec(
                ts,
                p + step(ts, p),
                match s.value {
                    Some(statement) => acc.push(statement),
                    None => acc,
                },
            ),
        )
    }
}

/// The statements of a program after those in `acc`, up to the end of the
/// input. A statement that fails is left out, and parsing goes on after
/// the token at which it failed.
pub open spec fn parse_statements_spec(ts: Seq<TokenView>, pos: nat, acc: Seq<StmtView>) -> Parsed<
    Seq<StmtView>,
>
    decreases remaining(ts, pos), 5int,
{
    if kind_at(ts, pos) == TokenKind::Eof {
        parsed(acc, 0, Seq::empty())
    } else {
        let s = parse_statement_spec(ts, pos);
        let p = pos + s.used;
        after(
            s.used + step(ts, p),
            s.errors,
            parse_statements_spec(
                ts,
                p + step(ts, p),
                match s.value {
                    Some(statement) => acc.push(statement),
                    None => acc,
                },
            ),
        )
    }
}

/// The program that a token sequence denotes, and its syntax errors.
pub open spec fn parse_program_spec(ts: Seq<TokenView>) -> (Seq<StmtView>, Seq<Seq<char>>) {
    let r = parse_statements_spec(ts, 0, Seq::empty());
    (
        match r.value {
            Some(statements) => statements,
            None => Seq::empty(),
        },
        r.errors,
    )
}

pub open spec fn expr_option_view(o: Option<Expression>) -> Option<ExprView> {
    match o {
        Some(e) => Some(e@),
        None => None,
    }
}

pub open spec fn stmt_option_view(o: Option<Statement>) -> Option<StmtView> {
    match o {
        Some(s) => Some(s@),
        None => None,
    }
}

pub open spec fn exprs_option_view(o: Option<Vec<Expression>>) -> Option<Seq<ExprView>> {
    match o {
        Some(es) => Some(exprs_view(es@)),
        None => None,
    }
}

pub open spec fn stmts_option_view(o: Option<Vec<Statement>>) -> Option<Seq<StmtView>> {
    match o {
        Some(ss) => Some(stmts_view(ss@)),
        None => None,
    }
}

/// A parser over a token sequence.
pub struct Parser {
    pub tokens: Vec<Token>,
    pub pos: usize,
    pub errors: Vec<String>,
}

impl Parser {
    /// The position is inside the tokens or at their end.
    pub open spec fn wf(&self) -> bool {
        self.pos <= self.tokens.len()
    }

    pub open spec fn ts(&self) -> Seq<TokenView> {
        tokens_view(self.tokens@)
    }

    pub open spec fn errors_view(&self) -> Seq<Seq<char>> {
        strings_view(self.errors@)
    }

    /// The parser has moved on from `before` as the outcome `r` says.
    pub open spec fn follows<T>(&self, before: &Parser, r: Parsed<T>) -> bool {
        &&& self.tokens == before.tokens
        &&& self.pos == before.pos + r.used
        &&& self.errors_view() =~= before.errors_view() + r.errors
        &&& self.wf()
    }

    /// A parser on the first token.
    pub fn new(tokens: Vec<Token>) -> (r: Parser)
        ensures
            r.wf(),
            r.tokens == tokens,
            r.pos == 0,
            r.errors_view() == Seq::<Seq<char>>::empty(),
    {
        let r = Parser { tokens, pos: 0, errors: Vec::new() };
        assert(r.errors_view() =~= Seq::<Seq<char>>::empty());
        r
    }

    /// The errors recorded so far.
    pub fn errors(&self) -> (r: &Vec<String>)
        ensures
            r == &self.errors,
    {
        &self.errors
    }

    fn kind_of(&self, i: usize) -> (r: TokenKind)
        ensures
            r == kind_at(self.ts(), i as nat),
    {
        if i < self.tokens.len() {
            self.tokens[i].kind
        } else {
            TokenKind::Eof
        }
    }

    fn cur_kind(&self) -> (r: TokenKind)
        ensures
            r == kind_at(self.ts(), self.pos as nat),
    {
        self.kind_of(self.pos)
    }

    fn peek_kind(&self) -> (r: TokenKind)
        requires
            self.wf(),
        ensures
            r == kind_at(self.ts(), (self.pos + 1) as nat),
    {
        if self.pos < self.tokens.len() {
            self.kind_of(self.pos + 1)
        } else {
            TokenKind::Eof
        }
    }

    fn cur_literal(&self) -> (r: String)
        ensures
            r@ == token_or_eof(self.ts(), self.pos as nat).literal,
    {
        if self.pos < self.tokens.len() {
            self.tokens[self.pos].literal.clone()
        } else {
            String::new()
        }
    }

    fn advance(&mut self)
        requires
            old(self).wf(),
        ensures
            final(self).wf(),
            final(self).tokens == old(self).tokens,
            final(self).errors == old(self).errors,
            final(self).pos == old(self).pos + step(old(self).ts(), old(self).pos as nat),
    {
        if self.pos < self.tokens.len() {
            self.pos = self.pos + 1;
        }
    }

    fn record(&mut self, message: String)
        ensures
            final(self).tokens == old(self).tokens,
            final(self).pos == old(self).pos,
            final(self).errors_view() == old(self).errors_view().push(message@),
    {
        self.errors.push(message);
        assert(self.errors_view() =~= old(self).errors_view().push(message@));
    }

    fn record_expected(&mut self, expected: TokenKind, got: TokenKind)
        ensures
            final(self).tokens == old(self).tokens,
            final(self).pos == old(self).pos,
            final(self).errors_view() == old(self).errors_view().push(expect_error(expected, got)),
    {
        let mut message = String::from_str("expected next token to be ");
        message.append(expected.name());
        message.append(", got ");
        message.append(got.name());
        message.append(" instead");
        self.record(message);
    }

    /// Steps to the next token if it is of the given kind; records an
    /// error and stays otherwise.
    fn expect_peek(&mut self, kind: TokenKind) -> (r: bool)
        requires
            old(self).wf(),
            kind != TokenKind::Eof,
        ensures
            final(self).wf(),
            final(self).tokens == old(self).tokens,
            r == (kind_at(old(self).ts(), (old(self).pos + 1) as nat) == kind),
            r ==> final(self).pos == old(self).pos + 1 && final(self).errors == old(self).errors
                && final(self).pos < final(self).tokens.len(),
            !r ==> final(self).pos == old(self).pos && final(self).errors_view() == old(
                self,
            ).errors_view().push(
                expect_error(kind, kind_at(old(self).ts(), (old(self).pos + 1) as nat)),
            ),
    {
        let next = self.peek_kind();
        if next == kind {
            self.advance();
            true
        } else {
            self.record_expected(kind, next);
            false
        }
    }

    fn skip_semicolon(&mut self)
        requires
            old(self).wf(),
        ensures
            final(self).wf(),
            final(self).tokens == old(self).tokens,
            final(self).errors == old(self).errors,
            final(self).pos == old(self).pos + semicolon(old(self).ts(), old(self).pos as nat),
    {
        if self.peek_kind() == TokenKind::Semicolon {
            self.advance();
        }
    }

    /// Parses the whole input from the current position.
    pub fn parse_program(&mut self) -> (r: Program)
        requires
            old(self).wf(),
        ensures
            final(self).follows(
                old(self),
                parse_statements_spec(old(self).ts(), old(self).pos as nat, Seq::empty()),
            ),
            Some(r@) == parse_statements_spec(
                old(self).ts(),
                old(self).pos as nat,
                Seq::empty(),
            ).value,
    {
        let acc: Vec<Statement> = Vec::new();
        assert(stmts_view(acc@) =~= Seq::empty());
        let statements = self.parse_statements(acc);
        Program { statements }
    }

    fn parse_statements(&mut self, acc: Vec<Statement>) -> (r: Vec<Statement>)
        requires
            old(self).wf(),
        ensures
            final(self).follows(
                old(self),
                parse_statements_spec(old(self).ts(), old(self).pos as nat, stmts_view(acc@)),
            ),
            Some(stmts_view(r@)) == parse_statements_spec(
                old(self).ts(),
                old(self).pos as nat,
                stmts_view(acc@),
            ).value,
        decreases remaining(old(self).ts(), old(self).pos as nat), 5int,
    {
        if self.cur_kind() == TokenKind::Eof {
            return acc;
        }
        let mut acc = acc;
        let ghost before = stmts_view(acc@);
        match self.parse_statement() {
            Some(statement) => {
                acc.push(statement);
                assert(stmts_view(acc@) =~= before.push(statement@));
            },
            None => {},
        }
        self.advance();
        self.parse_statements(acc)
    }

    fn parse_block(&mut self, acc: Vec<Statement>) -> (r: Option<Vec<Statement>>)
        requires
            old(self).wf(),
        ensures
            final(self).follows(
                old(self),
                parse_block_spec(old(self).ts(), old(self).pos as nat, stmts_view(acc@)),
            ),
            stmts_option_view(r) == parse_block_spec(
                old(self).ts(),
                old(self).pos as nat,
                stmts_view(acc@),
            ).value,
        decreases remaining(old(self).ts(), old(self).pos as nat), 5int,
    {
        let kind = self.cur_kind();
        if kind == TokenKind::RBrace {
            return Some(acc);
        }
        if kind == TokenKind::Eof {
            self.record_expected(TokenKind::RBrace, TokenKind::Eof);
            return None;
        }
        let mut acc = acc;
        let ghost before = stmts_view(acc@);
        match self.parse_statement() {
            Some(statement) => {
                acc.push(statement);
                assert(stmts_view(acc@) =~= before.push(statement@));
            },
            None => {},
        }
        self.advance();
        self.parse_block(acc)
    }

    fn parse_statement(&mut self) -> (r: Option<Statement>)
        requires
            old(self).wf(),
        ensures
            final(self).follows(
                old(self),
                parse_statement_spec(old(self).ts(), old(self).pos as nat),
            ),
            stmt_option_view(r) == parse_statement_spec(
                old(self).ts(),
                old(self).pos as nat,
            ).value,
        decreases remaining(old(self).ts(), old(self).pos as nat), 4int,
    {
        let kind = self.cur_kind();
        if kind == TokenKind::Let {
            if !self.expect_peek(TokenKind::Ident) {
                return None;
            }
            let name = self.cur_literal();
            if !self.expect_peek(TokenKind::Assign) {
                return None;
            }
            self.advance();
            let value = match self.parse_expression(0) {
                Some(value) => value,
                None => {
                    return None;
                },
            };
            self.skip_semicolon();
            Some(Statement::Let { name, value })
        } else if kind == TokenKind::Return {
            self.advance();
            let value = match self.parse_expression(0) {
                Some(value) => value,
                None => {
                    return None;
                },
            };
            self.skip_semicolon();
            Some(Statement::Return { value })
        } else {
            let expression = match self.parse_expression(0) {
                Some(expression) => expression,
                None => {
                    return None;
                },
            };
            self.skip_semicolon();
            Some(Statement::Expression { expression })
        }
    }

    /// Parses an expression with every infix operator that binds tighter
    /// than `level`.
    pub fn parse_expression(&mut self, level: u8) -> (r: Option<Expression>)
        requires
            old(self).wf(),
        ensures
            final(self).follows(
                old(self),
                parse_expression_spec(old(self).ts(), old(self).pos as nat, level as nat),
            ),
            expr_option_view(r) == parse_expression_spec(
                old(self).ts(),
                old(self).pos as nat,
                level as nat,
            ).value,
        decreases remaining(old(self).ts(), old(self).pos as nat), 2int,
    {
        match self.parse_prefix() {
            Some(left) => self.parse_infix_loop(level, left),
            None => None,
        }
    }

    fn parse_prefix(&mut self) -> (r: Option<Expression>)
        requires
            old(self).wf(),
        ensures
            final(self).follows(old(self), parse_prefix_spec(old(self).ts(), old(self).pos as nat)),
            expr_option_view(r) == parse_prefix_spec(old(self).ts(), old(self).pos as nat).value,
        decreases remaining(old(self).ts(), old(self).pos as nat), 1int,
    {
        let kind = self.cur_kind();
        match kind {
            TokenKind::Ident => Some(Expression::Identifier { name: self.cur_literal() }),
            TokenKind::Int => {
                let literal = self.cur_literal();
                match parse_i64(literal.as_str()) {
                    Some(value) => Some(Expression::IntegerLiteral { value }),
                    None => {
                        let mut message = String::from_str("could not parse ");
                        message.append(literal.as_str());
                        message.append(" as integer");
                        self.record(message);
                        None
                    },
                }
            },
            TokenKind::Str => Some(Expression::StringLiteral { value: self.cur_literal() }),
            TokenKind::True => Some(Expression::BooleanLiteral { value: true }),
            TokenKind::False => Some(Expression::BooleanLiteral { value: false }),
            TokenKind::Bang => {
                self.advance();
                match self.parse_expression(5) {
                    Some(right) => Some(
                        Expression::Prefix { operator: PrefixOp::Bang, right: Box::new(right) },
                    ),
                    None => None,
                }
            },
            TokenKind::Minus => {
                self.advance();
                match self.parse_expression(5) {
                    Some(right) => Some(
                        Expression::Prefix { operator: PrefixOp::Minus, right: Box::new(right) },
                    ),
                    None => None,
                }
            },
            TokenKind::LParen => {
                self.advance();
                match self.parse_expression(0) {
                    Some(e) => {
                        if self.expect_peek(TokenKind::RParen) {
                            Some(e)
                        } else {
                            None
                        }
                    },
                    None => None,
                }
            },
            TokenKind::If => self.parse_if(),
            TokenKind::Function => self.parse_function(),
            TokenKind::LBracket => {
                self.advance();
                match self.parse_list(TokenKind::RBracket) {
                    Some(elements) => Some(Expression::Array { elements }),
                    None => None,
                }
            },
            TokenKind::LBrace => {
                self.advance();
                let acc: Vec<(Expression, Expression)> = Vec::new();
                assert(pairs_view(acc@) =~= Seq::empty());
                self.parse_hash(acc)
            },
            _ => {
                let mut message = String::from_str("no prefix parse function for ");
                message.append(kind.name());
                message.append(" found");
                self.record(message);
                None
            },
        }
    }

    fn parse_if(&mut self) -> (r: Option<Expression>)
        requires
            old(self).wf(),
        ensures
            final(self).follows(old(self), parse_if_spec(old(self).ts(), old(self).pos as nat)),
            expr_option_view(r) == parse_if_spec(old(self).ts(), old(self).pos as nat).value,
        decreases remaining(old(self).ts(), old(self).pos as nat), 0int,
    {
        if !self.expect_peek(TokenKind::LParen) {
            return None;
        }
        self.advance();
        let condition = match self.parse_expression(0) {
            Some(condition) => condition,
            None => {
                return None;
            },
        };
        if !self.expect_peek(TokenKind::RParen) {
            return None;
        }
        if !self.expect_peek(TokenKind::LBrace) {
            return None;
        }
        self.advance();
        let consequence = match self.parse_block(empty_block()) {
            Some(statements) => BlockStatement { statements },
            None => {
                return None;
            },
        };
        if self.peek_kind() != TokenKind::Else {
            return Some(
                Expression::If { condition: Box::new(condition), consequence, alternative: None },
            );
        }
        self.advance();
        if !self.expect_peek(TokenKind::LBrace) {
            return None;
        }
        self.advance();
        let alternative = match self.parse_block(empty_block()) {
            Some(statements) => BlockStatement { statements },
            None => {
                return None;
            },
        };
        Some(
            Expression::If {
                condition: Box::new(condition),
                consequence,
                alternative: Some(alternative),
            },
        )
    }

    fn parse_function(&mut self) -> (r: Option<Expression>)
        requires
            old(self).wf(),
        ensures
            final(self).follows(
                old(self),
                parse_function_spec(old(self).ts(), old(self).pos as nat),
            ),
            expr_option_view(r) == parse_function_spec(old(self).ts(), old(self).pos as nat).value,
        decreases remaining(old(self).ts(), old(self).pos as nat), 0int,
    {
        if !self.expect_peek(TokenKind::LParen) {
            return None;
        }
        self.advance();
        let entries = match self.parse_list(TokenKind::RParen) {
            Some(entries) => entries,
            None => {
                return None;
            },
        };
        let parameters = match names_of(&entries) {
            Ok(parameters) => parameters,
            Err(message) => {
                self.record(message);
                return None;
            },
        };
        if !self.expect_peek(TokenKind::LBrace) {
            return None;
        }
        self.advance();
        match self.parse_block(empty_block()) {
            Some(statements) => Some(
                Expression::Function { parameters, body: BlockStatement { statements } },
            ),
            None => None,
        }
    }

    fn parse_infix_loop(&mut self, level: u8, left: Expression) -> (r: Option<Expression>)
        requires
            old(self).wf(),
        ensures
            final(self).follows(
                old(self),
                parse_infix_loop_spec(old(self).ts(), old(self).pos as nat, level as nat, left@),
            ),
            expr_option_view(r) == parse_infix_loop_spec(
                old(self).ts(),
                old(self).pos as nat,
                level as nat,
                left@,
            ).value,
        decreases remaining(old(self).ts(), old(self).pos as nat), 0int,
    {
        let next = self.peek_kind();
        if next != TokenKind::Semicolon && level < precedence_of(next) {
            self.advance();
            match self.parse_infix(left) {
                Some(e) => self.parse_infix_loop(level, e),
                None => None,
            }
        } else {
            Some(left)
        }
    }

    fn parse_infix(&mut self, left: Expression) -> (r: Option<Expression>)
        requires
            old(self).wf(),
        ensures
            final(self).follows(
                old(self),
                parse_infix_spec(old(self).ts(), old(self).pos as nat, left@),
            ),
            expr_option_view(r) == parse_infix_spec(
                old(self).ts(),
                old(self).pos as nat,
                left@,
            ).value,
        decreases remaining(old(self).ts(), old(self).pos as nat), 1int,
    {
        let kind = self.cur_kind();
        match operator_of(kind) {
            Some(operator) => {
                self.advance();
                match self.parse_expression(precedence_of(kind)) {
                    Some(right) => Some(
                        Expression::Infix {
                            operator,
                            left: Box::new(left),
                            right: Box::new(right),
                        },
                    ),
                    None => None,
                }
            },
            None => {
                if kind == TokenKind::LParen {
                    self.advance();
                    match self.parse_list(TokenKind::RParen) {
                        Some(arguments) => Some(
                            Expression::Call { function: Box::new(left), arguments },
                        ),
                        None => None,
                    }
                } else if kind == TokenKind::LBracket {
                    self.advance();
                    match self.parse_expression(0) {
                        Some(index) => {
                            if self.expect_peek(TokenKind::RBracket) {
                                Some(
                                    Expression::Index {
                                        left: Box::new(left),
                                        index: Box::new(index),
                                    },
                                )
                            } else {
                                None
                            }
                        },
                        None => None,
                    }
                } else {
                    None
                }
            },
        }
    }

    fn parse_list(&mut self, end: TokenKind) -> (r: Option<Vec<Expression>>)
        requires
            old(self).wf(),
            end != TokenKind::Eof,
        ensures
            final(self).follows(
                old(self),
                parse_list_spec(old(self).ts(), old(self).pos as nat, end),
            ),
            exprs_option_view(r) == parse_list_spec(old(self).ts(), old(self).pos as nat, end).value,
        decreases remaining(old(self).ts(), old(self).pos as nat), 3int,
    {
        if self.cur_kind() == end {
            let r: Vec<Expression> = Vec::new();
            assert(exprs_view(r@) =~= Seq::empty());
            return Some(r);
        }
        match self.parse_expression(0) {
            Some(e) => {
                let mut acc: Vec<Expression> = Vec::new();
                acc.push(e);
                assert(exprs_view(acc@) =~= seq![e@]);
                self.parse_list_rest(end, acc)
            },
            None => None,
        }
    }

    fn parse_list_rest(&mut self, end: TokenKind, acc: Vec<Expression>) -> (r: Option<
        Vec<Expression>,
    >)
        requires
            old(self).wf(),
            end != TokenKind::Eof,
        ensures
            final(self).follows(
                old(self),
                parse_list_rest_spec(old(self).ts(), old(self).pos as nat, end, exprs_view(acc@)),
            ),
            exprs_option_view(r) == parse_list_rest_spec(
                old(self).ts(),
                old(self).pos as nat,
                end,
                exprs_view(acc@),
            ).value,
        decreases remaining(old(self).ts(), old(self).pos as nat), 0int,
    {
        if self.peek_kind() == TokenKind::Comma {
            self.advance();
            self.advance();
            match self.parse_expression(0) {
                Some(e) => {
                    let mut acc = acc;
                    let ghost before = exprs_view(acc@);
                    acc.push(e);
                    assert(exprs_view(acc@) =~= before.push(e@));
                    self.parse_list_rest(end, acc)
                },
                None => None,
            }
        } else if self.expect_peek(end) {
            Some(acc)
        } else {
            None
        }
    }

    fn parse_hash(&mut self, acc: Vec<(Expression, Expression)>) -> (r: Option<Expression>)
        requires
            old(self).wf(),
        ensures
            final(self).follows(
                old(self),
                parse_hash_spec(old(self).ts(), old(self).pos as nat, pairs_view(acc@)),
            ),
            expr_option_view(r) == parse_hash_spec(
                old(self).ts(),
                old(self).pos as nat,
                pairs_view(acc@),
            ).value,
        decreases remaining(old(self).ts(), old(self).pos as nat), 3int,
    {
        if self.cur_kind() == TokenKind::RBrace {
            return Some(Expression::Hash { pairs: acc });
        }
        let key = match self.parse_expression(0) {
            Some(key) => key,
            None => {
                return None;
            },
        };
        if !self.expect_peek(TokenKind::Colon) {
            return None;
        }
        self.advance();
        let value = match self.parse_expression(0) {
            Some(value) => value,
            None => {
                return None;
            },
        };
        let mut acc = acc;
        let ghost before = pairs_view(acc@);
        acc.push((key, value));
        assert(pairs_view(acc@) =~= before.push((key@, value@)));
        if self.peek_kind() == TokenKind::RBrace {
            self.advance();
            return Some(Expression::Hash { pairs: acc });
        }
        if !self.expect_peek(TokenKind::Comma) {
            return None;
        }
        self.advance();
        self.parse_hash(acc)
    }
}

fn empty_block() -> (r: Vec<Statement>)
    ensures
        stmts_view(r@) == Seq::<StmtView>::empty(),
{
    let r: Vec<Statement> = Vec::new();
    assert(stmts_view(r@) =~= Seq::<StmtView>::empty());
    r
}

fn precedence_of(kind: TokenKind) -> (r: u8)
    ensures
        r as nat == precedence(kind),
{
    match kind {
        TokenKind::Eq => 1,
        TokenKind::NotEq => 1,
        TokenKind::Lt => 2,
        TokenKind::Gt => 2,
        TokenKind::Plus => 3,
        TokenKind::Minus => 3,
        TokenKind::Asterisk => 4,
        TokenKind::Slash => 4,
        TokenKind::LParen => 6,
        TokenKind::LBracket => 7,
        _ => 0,
    }
}

fn operator_of(kind: TokenKind) -> (r: Option<InfixOp>)
    ensures
        r == binary_op(kind),
{
    match kind {
        TokenKind::Eq => Some(InfixOp::Eq),
        TokenKind::NotEq => Some(InfixOp::NotEq),
        TokenKind::Lt => Some(InfixOp::Lt),
        TokenKind::Gt => Some(InfixOp::Gt),
        TokenKind::Plus => Some(InfixOp::Plus),
        TokenKind::Minus => Some(InfixOp::Minus),
        TokenKind::Asterisk => Some(InfixOp::Asterisk),
        TokenKind::Slash => Some(InfixOp::Slash),
        _ => None,
    }
}

/// The names of a parameter list, or the message for the first entry that
/// is no identifier.
fn names_of(entries: &Vec<Expression>) -> (r: Result<Vec<String>, String>)
    ensures
        match r {
            Ok(names) => Ok::<Seq<Seq<char>>, Seq<char>>(strings_view(names@)),
            Err(message) => Err(message@),
        } == parameter_names(exprs_view(entries@), 0, Seq::empty()),
{
    let ghost es = exprs_view(entries@);
    let mut names: Vec<String> = Vec::new();
    let mut i: usize = 0;
    assert(strings_view(names@) =~= Seq::empty());
    while i < entries.len()
        invariant
            i <= entries.len(),
            es == exprs_view(entries@),
            parameter_names(es, 0, Seq::empty()) == parameter_names(
                es,
                i as nat,
                strings_view(names@),
            ),
        decreases entries.len() - i,
    {
        let ghost before = strings_view(names@);
        match &entries[i] {
            Expression::Identifier { name } => {
                names.push(name.clone());
                assert(strings_view(names@) =~= before.push(name@));
            },
            other => {
                let mut message = String::from_str("function parameter is not an identifier: ");
                let text = other.to_text();
                message.append(text.as_str());
                return Err(message);
            },
        }
        i += 1;
    }
    Ok(names)
}

/// Parses a token sequence: the program, and the syntax errors in the
/// order in which they were met.
pub fn parse(tokens: Vec<Token>) -> (r: (Program, Vec<String>))
    ensures
        (r.0@, strings_view(r.1@)) == parse_program_spec(tokens_view(tokens@)),
{
    let mut parser = Parser::new(tokens);
    let program = parser.parse_program();
    assert(parser.errors_view() =~= parse_program_spec(tokens_view(tokens@)).1);
    (program, parser.errors)
}

/// Parsing never stops short: whatever the tokens are, a program comes
/// out, and the parser ends on an end-of-input token.
pub proof fn law_parser_reaches_end(ts: Seq<TokenView>, pos: nat, acc: Seq<StmtView>)
    ensures
        parse_statements_spec(ts, pos, acc).value is Some,
        kind_at(ts, pos + parse_statements_spec(ts, pos, acc).used) == TokenKind::Eof,
    decreases remaining(ts, pos),
{
    if kind_at(ts, pos) != TokenKind::Eof {
        let s = parse_statement_spec(ts, pos);
        let p = pos + s.used;
        law_parser_reaches_end(
            ts,
            p + step(ts, p),
            match s.value {
                Some(statement) => acc.push(statement),
                None => acc,
            },
        );
    }
}

/// The tokens of `a op1 b op2 c`, where `a`, `b` and `c` are names.
pub open spec fn two_operators(
    a: Seq<char>,
    op1: TokenKind,
    b: Seq<char>,
    op2: TokenKind,
    c: Seq<char>,
) -> Seq<TokenView> {
    seq![
        TokenView { kind: TokenKind::Ident, literal: a },
        TokenView { kind: op1, literal: kind_text(op1) },
        TokenView { kind: TokenKind::Ident, literal: b },
        TokenView { kind: op2, literal: kind_text(op2) },
        TokenView { kind: TokenKind::Ident, literal: c },
        eof_token(),
    ]
}

/// Of two binary operators in a row, the one that binds tighter takes the
/// operand between them; where both bind alike, the left one does.
pub proof fn law_precedence(a: Seq<char>, op1: TokenKind, b: Seq<char>, op2: TokenKind, c: Seq<char>)
    requires
        binary_op(op1) is Some,
        binary_op(op2) is Some,
    ensures
        ({
            let x = ExprView::Identifier { name: a };
            let y = ExprView::Identifier { name: b };
            let z = ExprView::Identifier { name: c };
            let first = binary_op(op1)->0;
            let second = binary_op(op2)->0;
            parse_expression_spec(two_operators(a, op1, b, op2, c), 0, lowest()) == parsed(
                if precedence(op1) >= precedence(op2) {
                    ExprView::Infix {
                        operator: second,
                        left: Box::new(
                            ExprView::Infix {
                                operator: first,
                                left: Box::new(x),
                                right: Box::new(y),
                            },
                        ),
                        right: Box::new(z),
                    }
                } else {
                    ExprView::Infix {
                        operator: first,
                        left: Box::new(x),
                        right: Box::new(
                            ExprView::Infix {
                                operator: second,
                                left: Box::new(y),
                                right: Box::new(z),
                            },
                        ),
                    }
                },
                4,
                Seq::empty(),
            )
        }),
{
    let ts = two_operators(a, op1, b, op2, c);
    let x = ExprView::Identifier { name: a };
    let y = ExprView::Identifier { name: b };
    let z = ExprView::Identifier { name: c };
    let first = binary_op(op1)->0;
    let second = binary_op(op2)->0;
    let none = Seq::<Seq<char>>::empty();
    assert(none + none =~= none);
    assert(kind_at(ts, 0) == TokenKind::Ident && kind_at(ts, 2) == TokenKind::Ident && kind_at(
        ts,
        4,
    ) == TokenKind::Ident);
    assert(kind_at(ts, 1) == op1 && kind_at(ts, 3) == op2 && kind_at(ts, 5) == TokenKind::Eof);
    assert(parse_prefix_spec(ts, 0) == parsed(x, 0, none));
    assert(parse_prefix_spec(ts, 2) == parsed(y, 0, none));
    assert(parse_prefix_spec(ts, 4) == parsed(z, 0, none));
    // The last name is followed by the end of the input, whatever the level.
    assert forall|level: nat, left: ExprView|
        #[trigger] parse_infix_loop_spec(ts, 4, level, left) == parsed(left, 0, none) by {}
    assert forall|level: nat| #[trigger]
        parse_expression_spec(ts, 4, level) == parsed(z, 0, none) by {}
    let yz = ExprView::Infix { operator: second, left: Box::new(y), right: Box::new(z) };
    assert(parse_infix_spec(ts, 3, y) == parsed(yz, 1, none));
    let xy = ExprView::Infix { operator: first, left: Box::new(x), right: Box::new(y) };
    if precedence(op1) >= precedence(op2) {
        // The right operand of the first operator ends before the second.
        assert(parse_infix_loop_spec(ts, 2, precedence(op1), y) == parsed(y, 0, none));
        assert(parse_expression_spec(ts, 2, precedence(op1)) == parsed(y, 0, none));
        assert(parse_infix_spec(ts, 1, x) == parsed(xy, 1, none));
        let whole = ExprView::Infix { operator: second, left: Box::new(xy), right: Box::new(z) };
        assert(parse_infix_spec(ts, 3, xy) == parsed(whole, 1, none));
        assert(parse_infix_loop_spec(ts, 4, lowest(), whole) == parsed(whole, 0, none));
        assert(parse_infix_loop_spec(ts, 2, lowest(), xy) == after(
            2,
            none,
            parse_infix_loop_spec(ts, 4, lowest(), whole),
        ));
        assert(parse_infix_loop_spec(ts, 2, lowest(), xy) == parsed(whole, 2, none));
        assert(parse_infix_loop_spec(ts, 0, lowest(), x) == after(
            2,
            none,
            parse_infix_loop_spec(ts, 2, lowest(), xy),
        ));
        assert(parse_infix_loop_spec(ts, 0, lowest(), x) == parsed(whole, 4, none));
    } else {
        // The right operand of the first operator takes the second with it.
        assert(parse_infix_loop_spec(ts, 4, precedence(op1), yz) == parsed(yz, 0, none));
        assert(parse_infix_loop_spec(ts, 2, precedence(op1), y) == after(
            2,
            none,
            parse_infix_loop_spec(ts, 4, precedence(op1), yz),
        ));
        assert(parse_infix_loop_spec(ts, 2, precedence(op1), y) == parsed(yz, 2, none));
        assert(parse_expression_spec(ts, 2, precedence(op1)) == parsed(yz, 2, none));
        let whole = ExprView::Infix { operator: first, left: Box::new(x), right: Box::new(yz) };
        assert(parse_infix_spec(ts, 1, x) == parsed(whole, 3, none));
        assert(parse_infix_loop_spec(ts, 4, lowest(), whole) == parsed(whole, 0, none));
        assert(parse_infix_loop_spec(ts, 0, lowest(), x) == after(
            4,
            none,
            parse_infix_loop_spec(ts, 4, lowest(), whole),
        ));
        assert(parse_infix_loop_spec(ts, 0, lowest(), x) == parsed(whole, 4, none));
    }
}

/// The operator that a prefix token stands for.
pub open spec fn prefix_op(kind: TokenKind) -> Option<PrefixOp> {
    match kind {
        TokenKind::Bang => Some(PrefixOp::Bang),
        TokenKind::Minus => Some(PrefixOp::Minus),
        _ => None,
    }
}

/// A prefix operator binds tighter than every binary operator: in
/// `-a * b` the minus takes `a` alone.
pub proof fn law_prefix_binds_tighter(pre: TokenKind, a: Seq<char>, op: TokenKind, b: Seq<char>)
    requires
        prefix_op(pre) is Some,
        binary_op(op) is Some,
    ensures
        ({
            let ts = seq![
                TokenView { kind: pre, literal: kind_text(pre) },
                TokenView { kind: TokenKind::Ident, literal: a },
                TokenView { kind: op, literal: kind_text(op) },
                TokenView { kind: TokenKind::Ident, literal: b },
                eof_token(),
            ];
            parse_expression_spec(ts, 0, lowest()) == parsed(
                ExprView::Infix {
                    operator: binary_op(op)->0,
                    left: Box::new(
                        ExprView::Prefix {
                            operator: prefix_op(pre)->0,
                            right: Box::new(ExprView::Identifier { name: a }),
                        },
                    ),
                    right: Box::new(ExprView::Identifier { name: b }),
                },
                3,
                Seq::empty(),
            )
        }),
{
    let ts = seq![
        TokenView { kind: pre, literal: kind_text(pre) },
        TokenView { kind: TokenKind::Ident, literal: a },
        TokenView { kind: op, literal: kind_text(op) },
        TokenView { kind: TokenKind::Ident, literal: b },
        eof_token(),
    ];
    let x = ExprView::Identifier { name: a };
    let y = ExprView::Identifier { name: b };
    let negated = ExprView::Prefix { operator: prefix_op(pre)->0, right: Box::new(x) };
    let whole = ExprView::Infix {
        operator: binary_op(op)->0,
        left: Box::new(negated),
        right: Box::new(y),
    };
    let none = Seq::<Seq<char>>::empty();
    assert(none + none =~= none);
    assert(kind_at(ts, 0) == pre && kind_at(ts, 1) == TokenKind::Ident && kind_at(ts, 2) == op);
    assert(kind_at(ts, 3) == TokenKind::Ident && kind_at(ts, 4) == TokenKind::Eof);
    assert(parse_prefix_spec(ts, 1) == parsed(x, 0, none));
    assert(parse_infix_loop_spec(ts, 1, prefix_level(), x) == parsed(x, 0, none));
    assert(parse_expression_spec(ts, 1, prefix_level()) == parsed(x, 0, none));
    assert(parse_prefix_spec(ts, 0) == parsed(negated, 1, none));
    assert(parse_prefix_spec(ts, 3) == parsed(y, 0, none));
    assert(parse_infix_loop_spec(ts, 3, precedence(op), y) == parsed(y, 0, none));
    assert(parse_expression_spec(ts, 3, precedence(op)) == parsed(y, 0, none));
    assert(parse_infix_spec(ts, 2, negated) == parsed(whole, 1, none));
    assert(parse_infix_loop_spec(ts, 3, lowest(), whole) == parsed(whole, 0, none));
    assert(parse_infix_loop_spec(ts, 1, lowest(), negated) == after(
        2,
        none,
        parse_infix_loop_spec(ts, 3, lowest(), whole),
    ));
    assert(parse_infix_loop_spec(ts, 1, lowest(), negated) == parsed(whole, 2, none));
}

/// Calls and indexing are infix forms that bind tightest, so they chain:
/// `a[b]()` calls what indexing `a` gives.
pub proof fn law_index_then_call(a: Seq<char>, b: Seq<char>)
    ensures
        ({
            let ts = seq![
                TokenView { kind: TokenKind::Ident, literal: a },
                TokenView { kind: TokenKind::LBracket, literal: kind_text(TokenKind::LBracket) },
                TokenView { kind: TokenKind::Ident, literal: b },
                TokenView { kind: TokenKind::RBracket, literal: kind_text(TokenKind::RBracket) },
                TokenView { kind: TokenKind::LParen, literal: kind_text(TokenKind::LParen) },
                TokenView { kind: TokenKind::RParen, literal: kind_text(TokenKind::RParen) },
                eof_token(),
            ];
            parse_expression_spec(ts, 0, lowest()) == parsed(
                ExprView::Call {
                    function: Box::new(
                        ExprView::Index {
                            left: Box::new(ExprView::Identifier { name: a }),
                            index: Box::new(ExprView::Identifier { name: b }),
                        },
                    ),
                    arguments: Seq::empty(),
                },
                5,
                Seq::empty(),
            )
        }),
{
    let ts = seq![
        TokenView { kind: TokenKind::Ident, literal: a },
        TokenView { kind: TokenKind::LBracket, literal: kind_text(TokenKind::LBracket) },
        TokenView { kind: TokenKind::Ident, literal: b },
        TokenView { kind: TokenKind::RBracket, literal: kind_text(TokenKind::RBracket) },
        TokenView { kind: TokenKind::LParen, literal: kind_text(TokenKind::LParen) },
        TokenView { kind: TokenKind::RParen, literal: kind_text(TokenKind::RParen) },
        eof_token(),
    ];
    let x = ExprView::Identifier { name: a };
    let y = ExprView::Identifier { name: b };
    let indexed = ExprView::Index { left: Box::new(x), index: Box::new(y) };
    let whole = ExprView::Call { function: Box::new(indexed), arguments: Seq::empty() };
    let none = Seq::<Seq<char>>::empty();
    assert(none + none =~= none);
    assert(kind_at(ts, 0) == TokenKind::Ident && kind_at(ts, 1) == TokenKind::LBracket);
    assert(kind_at(ts, 2) == TokenKind::Ident && kind_at(ts, 3) == TokenKind::RBracket);
    assert(kind_at(ts, 4) == TokenKind::LParen && kind_at(ts, 5) == TokenKind::RParen);
    assert(kind_at(ts, 6) == TokenKind::Eof);
    assert(parse_prefix_spec(ts, 0) == parsed(x, 0, none));
    assert(parse_prefix_spec(ts, 2) == parsed(y, 0, none));
    assert(parse_infix_loop_spec(ts, 2, lowest(), y) == parsed(y, 0, none));
    assert(parse_expression_spec(ts, 2, lowest()) == parsed(y, 0, none));
    assert(parse_infix_spec(ts, 1, x) == parsed(indexed, 2, none));
    assert(parse_list_spec(ts, 5, TokenKind::RParen) == parsed(
        Seq::<ExprView>::empty(),
        0,
        none,
    ));
    assert(parse_infix_spec(ts, 4, indexed) == parsed(whole, 1, none));
    assert(parse_infix_loop_spec(ts, 5, lowest(), whole) == parsed(whole, 0, none));
    assert(parse_infix_loop_spec(ts, 3, lowest(), indexed) == after(
        2,
        none,
        parse_infix_loop_spec(ts, 5, lowest(), whole),
    ));
    assert(parse_infix_loop_spec(ts, 3, lowest(), indexed) == parsed(whole, 2, none));
    assert(parse_infix_loop_spec(ts, 0, lowest(), x) == after(
        3,
        none,
        parse_infix_loop_spec(ts, 3, lowest(), indexed),
    ));
    assert(parse_infix_loop_spec(ts, 0, lowest(), x) == parsed(whole, 5, none));
}

} // verus!
