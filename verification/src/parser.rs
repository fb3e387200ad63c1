use vstd::prelude::*;

use crate::ast::{
    exprs_v, idents_v, pairs_v, stmts_v, BlockStatement, Expression,
    HashPair, Identifier, Program, SBlock, SExpr, SIdent, SPair, SStmt, Statement,
};
use crate::lexer::{lex_all, lex_from, lex_pos, Lexer};
use crate::text::{int_error_text, parse_i64, parse_int, push_str, IntErrorKind};
use crate::token::{kind_name, SToken, Token, TokenType};

verus! {

/// Binding power of the lowest operators.
pub const LOWEST: u8 = 1;
/// Binding power of `==` and `!=`.
pub const EQUALS: u8 = 2;
/// Binding power of `<` and `>`.
pub const LESSGREATER: u8 = 3;
/// Binding power of `+` and `-`.
pub const SUM: u8 = 4;
/// Binding power of `*` and `/`.
pub const PRODUCT: u8 = 5;
/// Binding power of prefix `-` and `!`.
pub const PREFIX: u8 = 6;
/// Binding power of a call's `(`.
pub const CALL: u8 = 7;
/// Binding power of an index's `[`.
pub const INDEX: u8 = 8;

/// Where the parser stands in the tokens, and the errors it has reported so far.
#[verifier::ext_equal]
pub struct PState {
    pub pos: nat,
    pub errors: Seq<Seq<char>>,
}

/// The token that stands for the end of input.
pub open spec fn eof_tok() -> SToken {
    SToken { kind: TokenType::EOF, text: Seq::empty() }
}

/// The token at index `i`, or the end of input past the last token.
pub open spec fn tok_at(t: Seq<SToken>, i: nat) -> SToken {
    if i < t.len() {
        t[i as int]
    } else {
        eof_tok()
    }
}

/// The current token.
pub open spec fn cur(t: Seq<SToken>, st: PState) -> SToken {
    tok_at(t, st.pos)
}

/// The token after the current one.
pub open spec fn peek(t: Seq<SToken>, st: PState) -> SToken {
    tok_at(t, st.pos + 1)
}

/// The state after moving to the next token (the end of input stays where it is).
pub open spec fn next(t: Seq<SToken>, st: PState) -> PState {
    PState { pos: if st.pos < t.len() { st.pos + 1 } else { st.pos }, errors: st.errors }
}

/// The state with one more error reported.
pub open spec fn err(st: PState, msg: Seq<char>) -> PState {
    PState { pos: st.pos, errors: st.errors.push(msg) }
}

/// The number of tokens left, for termination.
pub open spec fn left(t: Seq<SToken>, st: PState) -> nat {
    if st.pos <= t.len() {
        (t.len() - st.pos) as nat
    } else {
        0
    }
}

/// The binding power of an infix operator token.
pub open spec fn precedence(k: TokenType) -> u8 {
    match k {
        TokenType::EQ | TokenType::NOT_EQ => EQUALS,
        TokenType::LT | TokenType::GT => LESSGREATER,
        TokenType::PLUS | TokenType::MINUS => SUM,
        TokenType::SLASH | TokenType::ASTERISK => PRODUCT,
        TokenType::LPAREN => CALL,
        TokenType::LBRACKET => INDEX,
        _ => LOWEST,
    }
}

/// The parse of `x o1 y o2 z`, for names `x`, `y`, `z` and infix operators `o1`, `o2`: the
/// second operator takes `y` for its left side when it binds more tightly than the first
/// (`x o1 (y o2 z)`); otherwise the first operator's expression is its left side
/// (`(x o1 y) o2 z`), so operators that bind alike group from the left. All five tokens are read.
pub proof fn law_operators_group_by_binding_power(x: SToken, o1: SToken, y: SToken, o2: SToken, z: SToken, errors: Seq<Seq<char>>)
    requires
        x.kind == TokenType::IDENT,
        y.kind == TokenType::IDENT,
        z.kind == TokenType::IDENT,
        binary(o1.kind),
        binary(o2.kind),
    ensures
        ({
            let t = seq![x, o1, y, o2, z];
            let ex = SExpr::Identifier(ident_of(x));
            let ey = SExpr::Identifier(ident_of(y));
            let ez = SExpr::Identifier(ident_of(z));
            let r = p_expression(t, PState { pos: 0, errors }, LOWEST);
            &&& r.1 == PState { pos: 4, errors }
            &&& precedence(o1.kind) < precedence(o2.kind) ==> r.0 == Some(
                SExpr::InfixExpr {
                    token: o1,
                    left: Box::new(ex),
                    operator: o1.text,
                    right: Box::new(SExpr::InfixExpr { token: o2, left: Box::new(ey), operator: o2.text, right: Box::new(ez) }),
                },
            )
            &&& !(precedence(o1.kind) < precedence(o2.kind)) ==> r.0 == Some(
                SExpr::InfixExpr {
                    token: o2,
                    left: Box::new(SExpr::InfixExpr { token: o1, left: Box::new(ex), operator: o1.text, right: Box::new(ey) }),
                    operator: o2.text,
                    right: Box::new(ez),
                },
            )
        }),
{
    let t = seq![x, o1, y, o2, z];
    let ex = SExpr::Identifier(ident_of(x));
    let ey = SExpr::Identifier(ident_of(y));
    let ez = SExpr::Identifier(ident_of(z));
    let s0 = PState { pos: 0, errors };
    let s1 = PState { pos: 1, errors };
    let s2 = PState { pos: 2, errors };
    let s3 = PState { pos: 3, errors };
    let s4 = PState { pos: 4, errors };
    let p1 = precedence(o1.kind);
    let p2 = precedence(o2.kind);
    assert(next(t, s0) == s1);
    assert(next(t, s1) == s2);
    assert(next(t, s2) == s3);
    assert(next(t, s3) == s4);
    assert(peek(t, s0) == o1);
    assert(peek(t, s2) == o2);
    assert(peek(t, s4) == eof_tok());
    assert(cur(t, s1) == o1);
    assert(cur(t, s3) == o2);
    assert(cur(t, s0) == x);
    assert(cur(t, s2) == y);
    assert(cur(t, s4) == z);
    assert(LOWEST < p1 && LOWEST < p2);
    // the last name
    assert(p_prefix(t, s4) == (Some(ez), s4));
    assert(p_infix_loop(t, s4, p2, ez) == (Some(ez), s4));
    assert(p_expression(t, s4, p2) == (Some(ez), s4));
    if p1 < p2 {
        let i2 = SExpr::InfixExpr { token: o2, left: Box::new(ey), operator: o2.text, right: Box::new(ez) };
        assert(p_infix(t, s3, ey) == (Some(i2), s4));
        assert(p_infix_loop(t, s4, p1, i2) == (Some(i2), s4));
        assert(p_infix_loop(t, s2, p1, ey) == (Some(i2), s4));
        assert(p_prefix(t, s2) == (Some(ey), s2));
        assert(p_expression(t, s2, p1) == (Some(i2), s4));
        let i1 = SExpr::InfixExpr { token: o1, left: Box::new(ex), operator: o1.text, right: Box::new(i2) };
        assert(p_infix(t, s1, ex) == (Some(i1), s4));
        assert(p_infix_loop(t, s4, LOWEST, i1) == (Some(i1), s4));
        assert(p_infix_loop(t, s0, LOWEST, ex) == (Some(i1), s4));
    } else {
        assert(p_infix_loop(t, s2, p1, ey) == (Some(ey), s2));
        assert(p_prefix(t, s2) == (Some(ey), s2));
        assert(p_expression(t, s2, p1) == (Some(ey), s2));
        let a = SExpr::InfixExpr { token: o1, left: Box::new(ex), operator: o1.text, right: Box::new(ey) };
        assert(p_infix(t, s1, ex) == (Some(a), s2));
        let b = SExpr::InfixExpr { token: o2, left: Box::new(a), operator: o2.text, right: Box::new(ez) };
        assert(p_infix(t, s3, a) == (Some(b), s4));
        assert(p_infix_loop(t, s4, LOWEST, b) == (Some(b), s4));
        assert(p_infix_loop(t, s2, LOWEST, a) == (Some(b), s4));
        assert(p_infix_loop(t, s0, LOWEST, ex) == (Some(b), s4));
    }
    assert(p_prefix(t, s0) == (Some(ex), s0));
}

/// How tightly the operators bind, from loosest to tightest: any other token, then `==` and
/// `!=`, then `<` and `>`, then `+` and `-`, then `*` and `/`, then a call's `(`, then an
/// index's `[`; operators on one level bind alike.
pub proof fn law_binding_powers()
    ensures
        precedence(TokenType::SEMICOLON) < precedence(TokenType::EQ),
        precedence(TokenType::EQ) == precedence(TokenType::NOT_EQ),
        precedence(TokenType::NOT_EQ) < precedence(TokenType::LT),
        precedence(TokenType::LT) == precedence(TokenType::GT),
        precedence(TokenType::GT) < precedence(TokenType::PLUS),
        precedence(TokenType::PLUS) == precedence(TokenType::MINUS),
        precedence(TokenType::MINUS) < precedence(TokenType::ASTERISK),
        precedence(TokenType::ASTERISK) == precedence(TokenType::SLASH),
        precedence(TokenType::SLASH) < precedence(TokenType::LPAREN),
        precedence(TokenType::LPAREN) < precedence(TokenType::LBRACKET),
{
}

/// Whether a token type is a binary operator.
pub open spec fn binary(k: TokenType) -> bool {
    k == TokenType::PLUS || k == TokenType::MINUS || k == TokenType::SLASH || k == TokenType::ASTERISK
        || k == TokenType::EQ || k == TokenType::NOT_EQ || k == TokenType::LT || k == TokenType::GT
}

/// The error reported when the next token is not of the expected type.
pub open spec fn peek_error_msg(expected: TokenType, got: TokenType) -> Seq<char> {
    "expected next token to be "@ + kind_name(expected) + ", got "@ + kind_name(got) + " instead"@
}

/// The error reported when no expression can start with a token type.
pub open spec fn no_prefix_msg(k: TokenType) -> Seq<char> {
    "no prefix parse function for "@ + kind_name(k) + " found"@
}

/// The error reported when an integer literal does not fit an `i64`.
pub open spec fn int_error_msg(text: Seq<char>, k: IntErrorKind) -> Seq<char> {
    "could not parse "@ + text + " as integer: "@ + int_error_text(k)
}

/// Moves on when the next token has the expected type; else reports it.
pub open spec fn expect_peek(t: Seq<SToken>, st: PState, k: TokenType) -> (bool, PState) {
    if peek(t, st).kind == k {
        (true, next(t, st))
    } else {
        (false, err(st, peek_error_msg(k, peek(t, st).kind)))
    }
}

/// The identifier a token stands for.
pub open spec fn ident_of(tok: SToken) -> SIdent {
    SIdent { token: tok, value: tok.text }
}

/// Moves past an optional `;`.
pub open spec fn skip_semicolon(t: Seq<SToken>, st: PState) -> PState {
    if peek(t, st).kind == TokenType::SEMICOLON {
        next(t, st)
    } else {
        st
    }
}

/// Parses a statement at the current token.
pub open spec fn p_statement(t: Seq<SToken>, st: PState) -> (Option<SStmt>, PState)
    decreases left(t, st), 9nat,
{
    let k = cur(t, st).kind;
    if k == TokenType::LET {
        p_let(t, st)
    } else if k == TokenType::RETURN {
        p_return(t, st)
    } else {
        p_expr_stmt(t, st)
    }
}

/// Parses `let <name> = <expression>;`.
pub open spec fn p_let(t: Seq<SToken>, st: PState) -> (Option<SStmt>, PState)
    decreases left(t, st), 8nat,
{
    let token = cur(t, st);
    let (ok, s1) = expect_peek(t, st, TokenType::IDENT);
    if !ok {
        (None, s1)
    } else {
        let name = ident_of(cur(t, s1));
        let (ok2, s2) = expect_peek(t, s1, TokenType::ASSIGN);
        if !ok2 {
            (None, s2)
        } else {
            let s3 = next(t, s2);
            if left(t, s3) >= left(t, st) {
                (None, s3)
            } else {
                let (v, s4) = p_expression(t, s3, LOWEST);
                match v {
                    None => (None, s4),
                    Some(e) => (Some(SStmt::Let { token, name, value: e }), skip_semicolon(t, s4)),
                }
            }
        }
    }
}

/// Parses `return <expression>;`.
pub open spec fn p_return(t: Seq<SToken>, st: PState) -> (Option<SStmt>, PState)
    decreases left(t, st), 8nat,
{
    let token = cur(t, st);
    let s1 = next(t, st);
    if left(t, s1) >= left(t, st) {
        (None, s1)
    } else {
        let (v, s2) = p_expression(t, s1, LOWEST);
        match v {
            None => (None, s2),
            Some(e) => (Some(SStmt::Return { token, value: e }), skip_semicolon(t, s2)),
        }
    }
}

/// Parses an expression used as a statement.
pub open spec fn p_expr_stmt(t: Seq<SToken>, st: PState) -> (Option<SStmt>, PState)
    decreases left(t, st), 8nat,
{
    let token = cur(t, st);
    let (v, s1) = p_expression(t, st, LOWEST);
    match v {
        None => (None, s1),
        Some(e) => (Some(SStmt::Expression { token, expression: e }), skip_semicolon(t, s1)),
    }
}

/// Parses an expression whose operators bind tighter than `prec` (Pratt parsing).
pub open spec fn p_expression(t: Seq<SToken>, st: PState, prec: u8) -> (Option<SExpr>, PState)
    decreases left(t, st), 7nat,
{
    let (l, s1) = p_prefix(t, st);
    match l {
        None => (None, s1),
        Some(e) => if left(t, s1) > left(t, st) {
            (None, s1)
        } else {
            p_infix_loop(t, s1, prec, e)
        },
    }
}

/// Extends `left_e` with infix operators, calls and indexes while they bind tighter than `prec`.
pub open spec fn p_infix_loop(t: Seq<SToken>, st: PState, prec: u8, left_e: SExpr) -> (
    Option<SExpr>,
    PState,
)
    decreases left(t, st), 5nat,
{
    let pk = peek(t, st).kind;
    if pk == TokenType::SEMICOLON || !(prec < precedence(pk)) {
        (Some(left_e), st)
    } else if binary(pk) || pk == TokenType::LPAREN || pk == TokenType::LBRACKET {
        let s1 = next(t, st);
        if left(t, s1) >= left(t, st) {
            (None, s1)
        } else {
            let (r, s2) = if binary(pk) {
                p_infix(t, s1, left_e)
            } else if pk == TokenType::LPAREN {
                p_call(t, s1, left_e)
            } else {
                p_index(t, s1, left_e)
            };
            match r {
                None => (None, s2),
                Some(e) => if left(t, s2) >= left(t, st) {
                    (None, s2)
                } else {
                    p_infix_loop(t, s2, prec, e)
                },
            }
        }
    } else {
        (Some(left_e), st)
    }
}

/// Parses the right side of an infix operator at the current token.
pub open spec fn p_infix(t: Seq<SToken>, st: PState, left_e: SExpr) -> (Option<SExpr>, PState)
    decreases left(t, st), 4nat,
{
    let token = cur(t, st);
    let prec = precedence(token.kind);
    let s1 = next(t, st);
    if left(t, s1) >= left(t, st) {
        (None, s1)
    } else {
        let (r, s2) = p_expression(t, s1, prec);
        match r {
            None => (None, s2),
            Some(re) => (
                Some(
                    SExpr::InfixExpr {
                        token,
                        left: Box::new(left_e),
                        operator: token.text,
                        right: Box::new(re),
                    },
                ),
                s2,
            ),
        }
    }
}

/// Parses the arguments of a call whose `(` is the current token.
pub open spec fn p_call(t: Seq<SToken>, st: PState, f: SExpr) -> (Option<SExpr>, PState)
    decreases left(t, st), 4nat,
{
    let token = cur(t, st);
    let (a, s1) = p_expression_list(t, st, TokenType::RPAREN);
    match a {
        None => (None, s1),
        Some(args) => (Some(SExpr::CallExpr { token, function: Box::new(f), arguments: args }), s1),
    }
}

/// Parses an index whose `[` is the current token.
pub open spec fn p_index(t: Seq<SToken>, st: PState, l: SExpr) -> (Option<SExpr>, PState)
    decreases left(t, st), 4nat,
{
    let token = cur(t, st);
    let s1 = next(t, st);
    if left(t, s1) >= left(t, st) {
        (None, s1)
    } else {
        let (i, s2) = p_expression(t, s1, LOWEST);
        match i {
            None => (None, s2),
            Some(ie) => {
                let (ok, s3) = expect_peek(t, s2, TokenType::RBRACKET);
                if !ok {
                    (None, s3)
                } else {
                    (Some(SExpr::IndexExpr { token, left: Box::new(l), index: Box::new(ie) }), s3)
                }
            },
        }
    }
}

/// Parses an expression that starts at the current token, before any infix operator.
pub open spec fn p_prefix(t: Seq<SToken>, st: PState) -> (Option<SExpr>, PState)
    decreases left(t, st), 6nat,
{
    let c = cur(t, st);
    let k = c.kind;
    if k == TokenType::IDENT {
        (Some(SExpr::Identifier(ident_of(c))), st)
    } else if k == TokenType::INT {
        p_integer(t, st)
    } else if k == TokenType::BANG || k == TokenType::MINUS {
        p_prefix_expr(t, st)
    } else if k == TokenType::TRUE || k == TokenType::FALSE {
        (Some(SExpr::BooleanLiteral { token: c, value: k == TokenType::TRUE }), st)
    } else if k == TokenType::LPAREN {
        p_grouped(t, st)
    } else if k == TokenType::IF {
        p_if(t, st)
    } else if k == TokenType::FUNCTION {
        p_function(t, st, false)
    } else if k == TokenType::STRING {
        (Some(SExpr::StringLiteral { token: c, value: c.text }), st)
    } else if k == TokenType::LBRACKET {
        p_array(t, st)
    } else if k == TokenType::LBRACE {
        p_hash(t, st)
    } else if k == TokenType::MACRO {
        p_function(t, st, true)
    } else {
        (None, err(st, no_prefix_msg(k)))
    }
}

/// Parses an integer literal.
pub open spec fn p_integer(t: Seq<SToken>, st: PState) -> (Option<SExpr>, PState) {
    let c = cur(t, st);
    match parse_int(c.text) {
        Ok(v) => (Some(SExpr::IntegerLiteral { token: c, value: v as i64 }), st),
        Err(k) => (None, err(st, int_error_msg(c.text, k))),
    }
}

/// Parses `-x` or `!x`.
pub open spec fn p_prefix_expr(t: Seq<SToken>, st: PState) -> (Option<SExpr>, PState)
    decreases left(t, st), 4nat,
{
    let token = cur(t, st);
    let s1 = next(t, st);
    if left(t, s1) >= left(t, st) {
        (None, s1)
    } else {
        let (r, s2) = p_expression(t, s1, PREFIX);
        match r {
            None => (None, s2),
            Some(re) => (Some(SExpr::PrefixExpr { token, operator: token.text, right: Box::new(re) }), s2),
        }
    }
}

/// Parses `( <expression> )`.
pub open spec fn p_grouped(t: Seq<SToken>, st: PState) -> (Option<SExpr>, PState)
    decreases left(t, st), 4nat,
{
    let s1 = next(t, st);
    if left(t, s1) >= left(t, st) {
        (None, s1)
    } else {
        let (e, s2) = p_expression(t, s1, LOWEST);
        let (ok, s3) = expect_peek(t, s2, TokenType::RPAREN);
        if !ok {
            (None, s3)
        } else {
            (e, s3)
        }
    }
}

/// Parses `if (<condition>) { ... }`, with an optional `else { ... }`.
pub open spec fn p_if(t: Seq<SToken>, st: PState) -> (Option<SExpr>, PState)
    decreases left(t, st), 4nat,
{
    let token = cur(t, st);
    let (ok1, s1) = expect_peek(t, st, TokenType::LPAREN);
    if !ok1 {
        (None, s1)
    } else {
        let s2 = next(t, s1);
        if left(t, s2) >= left(t, st) {
            (None, s2)
        } else {
            let (c, s3) = p_expression(t, s2, LOWEST);
            match c {
                None => (None, s3),
                Some(cond) => {
                    let (ok2, s4) = expect_peek(t, s3, TokenType::RPAREN);
                    if !ok2 {
                        (None, s4)
                    } else {
                        let (ok3, s5) = expect_peek(t, s4, TokenType::LBRACE);
                        if !ok3 {
                            (None, s5)
                        } else if left(t, s5) >= left(t, st) {
                            (None, s5)
                        } else {
                            let (cons, s6) = p_block(t, s5);
                            if peek(t, s6).kind == TokenType::ELSE {
                                let s7 = next(t, s6);
                                let (ok4, s8) = expect_peek(t, s7, TokenType::LBRACE);
                                if !ok4 {
                                    (None, s8)
                                } else if left(t, s8) >= left(t, st) {
                                    (None, s8)
                                } else {
                                    let (alt, s9) = p_block(t, s8);
                                    (
                                        Some(
                                            SExpr::IfLiteral {
                                                token,
                                                condition: Box::new(cond),
                                                consequence: cons,
                                                alternative: Some(alt),
                                            },
                                        ),
                                        s9,
                                    )
                                }
                            } else {
                                (
                                    Some(
                                        SExpr::IfLiteral {
                                            token,
                                            condition: Box::new(cond),
                                            consequence: cons,
                                            alternative: None,
                                        },
                                    ),
                                    s6,
                                )
                            }
                        }
                    }
                },
            }
        }
    }
}

/// Parses a block whose `{` is the current token, up to its `}` or the end of input.
pub open spec fn p_block(t: Seq<SToken>, st: PState) -> (SBlock, PState)
    decreases left(t, st), 2nat,
{
    let token = cur(t, st);
    let s1 = next(t, st);
    if left(t, s1) >= left(t, st) {
        (SBlock { token, statements: Seq::empty() }, s1)
    } else {
        let (stmts, s2) = p_block_loop(t, s1, Seq::empty());
        (SBlock { token, statements: stmts }, s2)
    }
}

/// Parses the statements of a block from the current token, after those in `acc`.
pub open spec fn p_block_loop(t: Seq<SToken>, st: PState, acc: Seq<SStmt>) -> (Seq<SStmt>, PState)
    decreases left(t, st), 10nat,
{
    let k = cur(t, st).kind;
    if k == TokenType::RBRACE || k == TokenType::EOF {
        (acc, st)
    } else {
        let (s, s1) = p_statement(t, st);
        let s2 = next(t, s1);
        if left(t, s2) >= left(t, st) {
            (acc, s2)
        } else {
            let acc2 = match s {
                Some(x) => acc.push(x),
                None => acc,
            };
            p_block_loop(t, s2, acc2)
        }
    }
}

/// Parses `fn (<parameters>) { ... }`, or `macro (...) { ... }` when `is_macro`.
pub open spec fn p_function(t: Seq<SToken>, st: PState, is_macro: bool) -> (Option<SExpr>, PState)
    decreases left(t, st), 4nat,
{
    let token = cur(t, st);
    let (ok, s1) = expect_peek(t, st, TokenType::LPAREN);
    if !ok {
        (None, s1)
    } else {
        let (ps, s2) = p_params(t, s1);
        match ps {
            None => (None, s2),
            Some(params) => {
                let (ok2, s3) = expect_peek(t, s2, TokenType::LBRACE);
                if !ok2 {
                    (None, s3)
                } else if left(t, s3) >= left(t, st) {
                    (None, s3)
                } else {
                    let (body, s4) = p_block(t, s3);
                    if is_macro {
                        (Some(SExpr::MacroLiteral { token, parameters: params, body }), s4)
                    } else {
                        (Some(SExpr::FunctionLiteral { token, parameters: params, body }), s4)
                    }
                }
            },
        }
    }
}

/// Parses the parameter names of a function whose `(` is the current token.
pub open spec fn p_params(t: Seq<SToken>, st: PState) -> (Option<Seq<SIdent>>, PState) {
    if peek(t, st).kind == TokenType::RPAREN {
        (Some(Seq::empty()), next(t, st))
    } else {
        let s1 = next(t, st);
        let (ids, s2) = p_params_loop(t, s1, seq![ident_of(cur(t, s1))]);
        let (ok, s3) = expect_peek(t, s2, TokenType::RPAREN);
        if !ok {
            (None, s3)
        } else {
            (Some(ids), s3)
        }
    }
}

/// Reads `, <name>` pairs after the names in `ids`.
pub open spec fn p_params_loop(t: Seq<SToken>, st: PState, ids: Seq<SIdent>) -> (Seq<SIdent>, PState)
    decreases left(t, st),
{
    if peek(t, st).kind == TokenType::COMMA {
        let s1 = next(t, next(t, st));
        if left(t, s1) >= left(t, st) {
            (ids, s1)
        } else {
            p_params_loop(t, s1, ids.push(ident_of(cur(t, s1))))
        }
    } else {
        (ids, st)
    }
}

/// Parses `[ <elements> ]`.
pub open spec fn p_array(t: Seq<SToken>, st: PState) -> (Option<SExpr>, PState)
    decreases left(t, st), 4nat,
{
    let token = cur(t, st);
    let (els, s1) = p_expression_list(t, st, TokenType::RBRACKET);
    match els {
        None => (None, s1),
        Some(es) => (Some(SExpr::ArrayLiteral { token, elements: es }), s1),
    }
}

/// Parses expressions separated by `,` up to a token of type `end`.
pub open spec fn p_expression_list(t: Seq<SToken>, st: PState, end: TokenType) -> (
    Option<Seq<SExpr>>,
    PState,
)
    decreases left(t, st), 3nat,
{
    if peek(t, st).kind == end {
        (Some(Seq::empty()), next(t, st))
    } else {
        let s1 = next(t, st);
        if left(t, s1) >= left(t, st) {
            (None, s1)
        } else {
            let (e, s2) = p_expression(t, s1, LOWEST);
            match e {
                None => (None, s2),
                Some(x) => if left(t, s2) > left(t, st) {
                    (None, s2)
                } else {
                    p_list_loop(t, s2, seq![x], end)
                },
            }
        }
    }
}

/// Reads `, <expression>` pairs after the expressions in `acc`, then the closing `end`.
pub open spec fn p_list_loop(t: Seq<SToken>, st: PState, acc: Seq<SExpr>, end: TokenType) -> (
    Option<Seq<SExpr>>,
    PState,
)
    decreases left(t, st), 2nat,
{
    if peek(t, st).kind == TokenType::COMMA {
        let s1 = next(t, next(t, st));
        if left(t, s1) >= left(t, st) {
            (None, s1)
        } else {
            let (e, s2) = p_expression(t, s1, LOWEST);
            match e {
                None => (None, s2),
                Some(x) => if left(t, s2) >= left(t, st) {
                    (None, s2)
                } else {
                    p_list_loop(t, s2, acc.push(x), end)
                },
            }
        }
    } else {
        let (ok, s1) = expect_peek(t, st, end);
        if ok {
            (Some(acc), s1)
        } else {
            (None, s1)
        }
    }
}

/// Parses `{ <key>: <value>, ... }`.
pub open spec fn p_hash(t: Seq<SToken>, st: PState) -> (Option<SExpr>, PState)
    decreases left(t, st), 4nat,
{
    let token = cur(t, st);
    let (ps, s1) = p_hash_loop(t, st, Seq::empty());
    match ps {
        None => (None, s1),
        Some(pairs) => {
            let (ok, s2) = expect_peek(t, s1, TokenType::RBRACE);
            if !ok {
                (None, s2)
            } else {
                (Some(SExpr::HashLiteral { token, pairs }), s2)
            }
        },
    }
}

/// Reads `<key>: <value>` pairs, separated by `,`, after those in `acc`, until the next
/// token is `}`.
pub open spec fn p_hash_loop(t: Seq<SToken>, st: PState, acc: Seq<SPair>) -> (
    Option<Seq<SPair>>,
    PState,
)
    decreases left(t, st), 3nat,
{
    if peek(t, st).kind == TokenType::RBRACE {
        (Some(acc), st)
    } else {
        let s1 = next(t, st);
        if left(t, s1) >= left(t, st) {
            (None, s1)
        } else {
            let (k, s2) = p_expression(t, s1, LOWEST);
            match k {
                None => (None, s2),
                Some(key) => {
                    let (ok, s3) = expect_peek(t, s2, TokenType::COLON);
                    if !ok {
                        (None, s3)
                    } else {
                        let s4 = next(t, s3);
                        if left(t, s4) >= left(t, st) {
                            (None, s4)
                        } else {
                            let (v, s5) = p_expression(t, s4, LOWEST);
                            match v {
                                None => (None, s5),
                                Some(value) => {
                                    let acc2 = acc.push(SPair { key, value });
                                    if peek(t, s5).kind != TokenType::RBRACE {
                                        let (ok2, s6) = expect_peek(t, s5, TokenType::COMMA);
                                        if !ok2 {
                                            (None, s6)
                                        } else if left(t, s6) >= left(t, st) {
                                            (None, s6)
                                        } else {
                                            p_hash_loop(t, s6, acc2)
                                        }
                                    } else if left(t, s5) >= left(t, st) {
                                        (None, s5)
                                    } else {
                                        p_hash_loop(t, s5, acc2)
                                    }
                                },
                            }
                        }
                    }
                },
            }
        }
    }
}

/// Parses statements from the current token to the end of input, after those in `acc`.
pub open spec fn p_program_loop(t: Seq<SToken>, st: PState, acc: Seq<SStmt>) -> (Seq<SStmt>, PState)
    decreases left(t, st),
{
    if cur(t, st).kind == TokenType::EOF {
        (acc, st)
    } else {
        let (s, s1) = p_statement(t, st);
        let s2 = next(t, s1);
        if left(t, s2) >= left(t, st) {
            (acc, s2)
        } else {
            let acc2 = match s {
                Some(x) => acc.push(x),
                None => acc,
            };
            p_program_loop(t, s2, acc2)
        }
    }
}

/// The program that a list of tokens spells, and the parser's final state with its errors.
pub open spec fn p_program(t: Seq<SToken>) -> (Seq<SStmt>, PState) {
    p_program_loop(t, PState { pos: 0, errors: Seq::empty() }, Seq::empty())
}

/// The program that a source text spells, and the errors of its parse.
pub open spec fn parse_source(s: Seq<char>) -> (Seq<SStmt>, Seq<Seq<char>>) {
    let (p, st) = p_program(lex_all(s));
    (p, st.errors)
}


/// The abstract values of tokens.
pub open spec fn toks_v(v: Seq<Token>) -> Seq<SToken> {
    Seq::new(v.len(), |i: int| v[i]@)
}

/// The texts of strings.
pub open spec fn texts_v(v: Seq<String>) -> Seq<Seq<char>> {
    Seq::new(v.len(), |i: int| v[i]@)
}

/// The abstract value of a parsed statement, if any.
pub open spec fn ostmt(o: Option<Statement>) -> Option<SStmt> {
    match o {
        Some(s) => Some(s@),
        None => None,
    }
}

/// The abstract value of a parsed expression, if any.
pub open spec fn oexpr(o: Option<Expression>) -> Option<SExpr> {
    match o {
        Some(e) => Some(e@),
        None => None,
    }
}

/// The abstract values of parsed expressions, if any.
pub open spec fn oexprs(o: Option<Vec<Expression>>) -> Option<Seq<SExpr>> {
    match o {
        Some(v) => Some(exprs_v(v@)),
        None => None,
    }
}

/// Turns the tokens of a lexer into a syntax tree (a Pratt parser).
pub struct Parser {
    tokens: Vec<Token>,
    position: usize,
    errors: Vec<String>,
}

impl Parser {
    /// The tokens being parsed, without the final end of input.
    pub closed spec fn toks(&self) -> Seq<SToken> {
        toks_v(self.tokens@)
    }

    /// The parser's position and the errors so far.
    pub closed spec fn st(&self) -> PState {
        PState { pos: self.position as nat, errors: texts_v(self.errors@) }
    }

    /// The parser's own consistency.
    pub closed spec fn wf(&self) -> bool {
        &&& self.position <= self.tokens.len() < usize::MAX
        &&& forall|i: int| 0 <= i < self.tokens.len() ==> #[trigger] self.tokens@[i].token_type != TokenType::EOF
    }

    /// The number of tokens left.
    pub closed spec fn remaining(&self) -> nat {
        (self.tokens.len() - self.position) as nat
    }

    /// The parser `new` parses the same tokens, is consistent and has not moved back.
    pub closed spec fn keeps(self, new: Parser) -> bool {
        &&& new.wf()
        &&& new.tokens@ == self.tokens@
        &&& new.position >= self.position
    }

    /// A parser of the tokens that `l` reads from where it stands to the end of input. The
    /// parser takes its first two tokens, the current one and the next, from `l` itself.
    pub fn new(l: &mut Lexer) -> (p: Parser)
        requires
            old(l).wf(),
        ensures
            p.wf(),
            p.toks() == lex_from(old(l).chars(), old(l).pos()),
            p.st() == (PState { pos: 0, errors: Seq::empty() }),
            final(l).wf(),
            final(l).chars() == old(l).chars(),
            final(l).pos() == lex_pos(old(l).chars(), old(l).pos(), 2),
    {
        let ghost s = l.chars();
        let ghost start = l.pos();
        let mut reader = l.snapshot();
        proof {
            l.lemma_wf();
            assert(toks_v(Seq::<Token>::empty()) + lex_from(s, start) =~= lex_from(s, start));
        }
        let mut tokens: Vec<Token> = Vec::new();
        let mut done = false;
        while !done
            invariant
                reader.wf(),
                reader.chars() == s,
                start <= reader.pos() <= s.len(),
                tokens.len() <= reader.pos() - start,
                forall|i: int| 0 <= i < tokens.len() ==> #[trigger] tokens@[i].token_type != TokenType::EOF,
                s.len() <= usize::MAX / 4,
                !done ==> toks_v(tokens@) + lex_from(s, reader.pos()) == lex_from(s, start),
                done ==> toks_v(tokens@) == lex_from(s, start),
            decreases s.len() - reader.pos() + (if done { 0int } else { 1int }),
        {
            let ghost p = reader.pos();
            let t = reader.next_token();
            proof {
                reader.lemma_wf();
            }
            if t.token_type == TokenType::EOF {
                proof {
                    assert(lex_from(s, p) == Seq::<SToken>::empty());
                    assert(toks_v(tokens@) + Seq::<SToken>::empty() =~= toks_v(tokens@));
                }
                done = true;
            } else {
                proof {
                    assert(lex_from(s, p) == seq![t@] + lex_from(s, reader.pos()));
                    assert(toks_v(tokens@.push(t)) =~= toks_v(tokens@).push(t@));
                    assert(toks_v(tokens@).push(t@) + lex_from(s, reader.pos()) =~= toks_v(tokens@) + (
                    seq![t@] + lex_from(s, reader.pos())));
                }
                tokens.push(t);
            }
        }
        l.next_token();
        let ghost p1 = l.pos();
        l.next_token();
        proof {
            let p2 = l.pos();
            assert(lex_pos(s, p1, 1) == lex_pos(s, p2, 0));
            assert(lex_pos(s, start, 2) == lex_pos(s, p1, 1));
        }
        let p = Parser { tokens, position: 0, errors: Vec::new() };
        proof {
            assert(texts_v(p.errors@) =~= Seq::<Seq<char>>::empty());
        }
        p
    }

    /// The errors reported so far.
    pub fn errors(&self) -> (e: &Vec<String>)
        ensures
            texts_v(e@) == self.st().errors,
    {
        &self.errors
    }

    #[verifier::spinoff_prover]
    fn cur_kind(&self) -> (k: TokenType)
        requires
            self.wf(),
        ensures
            k == cur(self.toks(), self.st()).kind,
    {
        if self.position < self.tokens.len() {
            self.tokens[self.position].token_type
        } else {
            TokenType::EOF
        }
    }

    #[verifier::spinoff_prover]
    fn peek_kind(&self) -> (k: TokenType)
        requires
            self.wf(),
        ensures
            k == peek(self.toks(), self.st()).kind,
    {
        if self.position + 1 < self.tokens.len() {
            self.tokens[self.position + 1].token_type
        } else {
            TokenType::EOF
        }
    }

    #[verifier::spinoff_prover]
    fn cur_token(&self) -> (t: Token)
        requires
            self.wf(),
        ensures
            t@ == cur(self.toks(), self.st()),
    {
        if self.position < self.tokens.len() {
            self.tokens[self.position].duplicate()
        } else {
            let t = Token::new(TokenType::EOF, "");
            proof {
                reveal_strlit("");
                assert(t@ == eof_tok());
            }
            t
        }
    }

    #[verifier::spinoff_prover]
    fn next_token(&mut self)
        requires
            old(self).wf(),
        ensures
            old(self).keeps(*final(self)),
            final(self).st() == next(old(self).toks(), old(self).st()),
    {
        if self.position < self.tokens.len() {
            self.position = self.position + 1;
        }
    }

    #[verifier::spinoff_prover]
    fn report(&mut self, msg: String)
        requires
            old(self).wf(),
        ensures
            old(self).keeps(*final(self)),
            final(self).position == old(self).position,
            final(self).st() == err(old(self).st(), msg@),
    {
        self.errors.push(msg);
        assert(texts_v(self.errors@) =~= texts_v(old(self).errors@).push(msg@));
    }

    #[verifier::spinoff_prover]
    fn peek_error(&mut self, k: TokenType)
        requires
            old(self).wf(),
        ensures
            old(self).keeps(*final(self)),
            final(self).position == old(self).position,
            final(self).st() == err(old(self).st(), peek_error_msg(k, peek(old(self).toks(), old(self).st()).kind)),
    {
        let mut msg = String::new();
        push_str(&mut msg, "expected next token to be ");
        let a = k.name();
        push_str(&mut msg, a.as_str());
        push_str(&mut msg, ", got ");
        let b = self.peek_kind().name();
        push_str(&mut msg, b.as_str());
        push_str(&mut msg, " instead");
        self.report(msg);
    }

    #[verifier::spinoff_prover]
    fn expect_peek(&mut self, k: TokenType) -> (ok: bool)
        requires
            old(self).wf(),
        ensures
            old(self).keeps(*final(self)),
            ok == expect_peek(old(self).toks(), old(self).st(), k).0,
            final(self).st() == expect_peek(old(self).toks(), old(self).st(), k).1,
    {
        if self.peek_kind() == k {
            self.next_token();
            true
        } else {
            self.peek_error(k);
            false
        }
    }

    #[verifier::spinoff_prover]
    fn skip_semicolon(&mut self)
        requires
            old(self).wf(),
        ensures
            old(self).keeps(*final(self)),
            final(self).st() == skip_semicolon(old(self).toks(), old(self).st()),
    {
        if self.peek_kind() == TokenType::SEMICOLON {
            self.next_token();
        }
    }

    #[verifier::spinoff_prover]
    fn cur_ident(&self) -> (i: Identifier)
        requires
            self.wf(),
        ensures
            i@ == ident_of(cur(self.toks(), self.st())),
    {
        let token = self.cur_token();
        let value = token.literal();
        Identifier { token, value }
    }

    /// Parses the whole program, to the end of input.
    pub fn parse_program(&mut self) -> (p: Program)
        requires
            old(self).wf(),
        ensures
            final(self).wf(),
            final(self).toks() == old(self).toks(),
            p@ == p_program_loop(old(self).toks(), old(self).st(), Seq::empty()).0,
            final(self).st() == p_program_loop(old(self).toks(), old(self).st(), Seq::empty()).1,
    {
        let ghost t = self.toks();
        let ghost st0 = self.st();
        let mut program = Program::new();
        while self.cur_kind() != TokenType::EOF
            invariant
                self.wf(),
                self.toks() == t,
                p_program_loop(t, self.st(), program@) == p_program_loop(t, st0, Seq::empty()),
                st0 == old(self).st(),
            decreases self.tokens.len() - self.position,
        {
            let ghost before = self.st();
            let ghost acc = program@;
            let s = self.parse_statement();
            self.next_token();
            match s {
                Some(x) => program.add_statement(x),
                None => {},
            }
            proof {
                assert(left(t, self.st()) < left(t, before));
            }
        }
        program
    }

    #[verifier::spinoff_prover]
    fn parse_statement(&mut self) -> (r: Option<Statement>)
        requires
            old(self).wf(),
        ensures
            old(self).keeps(*final(self)),
            ostmt(r) == p_statement(old(self).toks(), old(self).st()).0,
            final(self).st() == p_statement(old(self).toks(), old(self).st()).1,
        decreases old(self).remaining(), 9nat,
    {
        let k = self.cur_kind();
        if k == TokenType::LET {
            self.parse_let_statement()
        } else if k == TokenType::RETURN {
            self.parse_return_statement()
        } else {
            self.parse_expression_statement()
        }
    }

    #[verifier::spinoff_prover]
    fn parse_let_statement(&mut self) -> (r: Option<Statement>)
        requires
            old(self).wf(),
            cur(old(self).toks(), old(self).st()).kind != TokenType::EOF,
        ensures
            old(self).keeps(*final(self)),
            ostmt(r) == p_let(old(self).toks(), old(self).st()).0,
            final(self).st() == p_let(old(self).toks(), old(self).st()).1,
        decreases old(self).remaining(), 8nat,
    {
        let token = self.cur_token();
        if !self.expect_peek(TokenType::IDENT) {
            return None;
        }
        let name = self.cur_ident();
        if !self.expect_peek(TokenType::ASSIGN) {
            return None;
        }
        self.next_token();
        let value = match self.parse_expression(LOWEST) {
            Some(v) => v,
            None => return None,
        };
        self.skip_semicolon();
        Some(Statement::Let { token, name, value })
    }

    #[verifier::spinoff_prover]
    fn parse_return_statement(&mut self) -> (r: Option<Statement>)
        requires
            old(self).wf(),
            cur(old(self).toks(), old(self).st()).kind != TokenType::EOF,
        ensures
            old(self).keeps(*final(self)),
            ostmt(r) == p_return(old(self).toks(), old(self).st()).0,
            final(self).st() == p_return(old(self).toks(), old(self).st()).1,
        decreases old(self).remaining(), 8nat,
    {
        let token = self.cur_token();
        self.next_token();
        let value = match self.parse_expression(LOWEST) {
            Some(v) => v,
            None => return None,
        };
        self.skip_semicolon();
        Some(Statement::Return { token, value })
    }

    #[verifier::spinoff_prover]
    fn parse_expression_statement(&mut self) -> (r: Option<Statement>)
        requires
            old(self).wf(),
        ensures
            old(self).keeps(*final(self)),
            ostmt(r) == p_expr_stmt(old(self).toks(), old(self).st()).0,
            final(self).st() == p_expr_stmt(old(self).toks(), old(self).st()).1,
        decreases old(self).remaining(), 8nat,
    {
        let token = self.cur_token();
        let expression = match self.parse_expression(LOWEST) {
            Some(v) => v,
            None => return None,
        };
        self.skip_semicolon();
        Some(Statement::Expression { token, expression })
    }

    #[verifier::spinoff_prover]
    fn parse_expression(&mut self, precedence: u8) -> (r: Option<Expression>)
        requires
            old(self).wf(),
        ensures
            old(self).keeps(*final(self)),
            oexpr(r) == p_expression(old(self).toks(), old(self).st(), precedence).0,
            final(self).st() == p_expression(old(self).toks(), old(self).st(), precedence).1,
        decreases old(self).remaining(), 7nat,
    {
        let ghost t = self.toks();
        let ghost st0 = self.st();
        let mut left_exp = match self.parse_prefix() {
            Some(e) => e,
            None => return None,
        };
        let ghost goal = p_expression(t, st0, precedence);
        while self.peek_kind() != TokenType::SEMICOLON && precedence < self.peek_precedence()
            invariant_except_break
                old(self).keeps(*self),
                self.toks() == t,
                p_infix_loop(t, self.st(), precedence, left_exp@) == goal,
                goal == p_expression(t, old(self).st(), precedence),
            ensures
                old(self).keeps(*self),
                goal == (Some(left_exp@), self.st()),
                goal == p_expression(t, old(self).st(), precedence),
            decreases self.tokens.len() - self.position,
        {
            let ghost before = self.st();
            let pk = self.peek_kind();
            if pk == TokenType::PLUS || pk == TokenType::MINUS || pk == TokenType::SLASH || pk
                == TokenType::ASTERISK || pk == TokenType::EQ || pk == TokenType::NOT_EQ || pk
                == TokenType::LT || pk == TokenType::GT {
                self.next_token();
                left_exp = match self.parse_infix_expression(left_exp) {
                    Some(e) => e,
                    None => return None,
                };
            } else if pk == TokenType::LPAREN {
                self.next_token();
                left_exp = match self.parse_call_expression(left_exp) {
                    Some(e) => e,
                    None => return None,
                };
            } else if pk == TokenType::LBRACKET {
                self.next_token();
                left_exp = match self.parse_index_expression(left_exp) {
                    Some(e) => e,
                    None => return None,
                };
            } else {
                break;
            }
        }
        Some(left_exp)
    }

    #[verifier::spinoff_prover]
    fn peek_precedence(&self) -> (p: u8)
        requires
            self.wf(),
        ensures
            p == precedence(peek(self.toks(), self.st()).kind),
    {
        get_token_precedence(self.peek_kind())
    }

    #[verifier::spinoff_prover]
    fn cur_precedence(&self) -> (p: u8)
        requires
            self.wf(),
        ensures
            p == precedence(cur(self.toks(), self.st()).kind),
    {
        get_token_precedence(self.cur_kind())
    }

    #[verifier::spinoff_prover]
    fn parse_prefix(&mut self) -> (r: Option<Expression>)
        requires
            old(self).wf(),
        ensures
            old(self).keeps(*final(self)),
            oexpr(r) == p_prefix(old(self).toks(), old(self).st()).0,
            final(self).st() == p_prefix(old(self).toks(), old(self).st()).1,
        decreases old(self).remaining(), 6nat,
    {
        let k = self.cur_kind();
        if k == TokenType::IDENT {
            Some(self.parse_identifier())
        } else if k == TokenType::INT {
            self.parse_integer_literal()
        } else if k == TokenType::BANG || k == TokenType::MINUS {
            self.parse_prefix_expression()
        } else if k == TokenType::TRUE || k == TokenType::FALSE {
            self.parse_boolean()
        } else if k == TokenType::LPAREN {
            self.parse_grouped_expression()
        } else if k == TokenType::IF {
            self.parse_if_expression()
        } else if k == TokenType::FUNCTION {
            self.parse_function_literal()
        } else if k == TokenType::STRING {
            self.parse_string_literal()
        } else if k == TokenType::LBRACKET {
            self.parse_array_literal()
        } else if k == TokenType::LBRACE {
            self.parse_hash_literal()
        } else if k == TokenType::MACRO {
            self.parse_macro_literal()
        } else {
            let mut msg = String::new();
            push_str(&mut msg, "no prefix parse function for ");
            let n = k.name();
            push_str(&mut msg, n.as_str());
            push_str(&mut msg, " found");
            self.report(msg);
            None
        }
    }

    #[verifier::spinoff_prover]
    fn parse_identifier(&self) -> (e: Expression)
        requires
            self.wf(),
        ensures
            e@ == SExpr::Identifier(ident_of(cur(self.toks(), self.st()))),
    {
        Expression::Identifier(self.cur_ident())
    }

    #[verifier::spinoff_prover]
    fn parse_integer_literal(&mut self) -> (r: Option<Expression>)
        requires
            old(self).wf(),
        ensures
            old(self).keeps(*final(self)),
            oexpr(r) == p_integer(old(self).toks(), old(self).st()).0,
            final(self).st() == p_integer(old(self).toks(), old(self).st()).1,
    {
        let token = self.cur_token();
        let chars = crate::text::chars_of(token.literal.as_str());
        match parse_i64(&chars) {
            Ok(value) => Some(Expression::IntegerLiteral { token, value }),
            Err(k) => {
                let mut msg = String::new();
                push_str(&mut msg, "could not parse ");
                push_str(&mut msg, token.literal.as_str());
                push_str(&mut msg, " as integer: ");
                let e = int_error_string(&k);
                push_str(&mut msg, e.as_str());
                self.report(msg);
                None
            },
        }
    }

    #[verifier::spinoff_prover]
    fn parse_prefix_expression(&mut self) -> (r: Option<Expression>)
        requires
            old(self).wf(),
            cur(old(self).toks(), old(self).st()).kind != TokenType::EOF,
        ensures
            old(self).keeps(*final(self)),
            oexpr(r) == p_prefix_expr(old(self).toks(), old(self).st()).0,
            final(self).st() == p_prefix_expr(old(self).toks(), old(self).st()).1,
        decreases old(self).remaining(), 4nat,
    {
        let token = self.cur_token();
        let operator = token.literal();
        self.next_token();
        let right = match self.parse_expression(PREFIX) {
            Some(e) => e,
            None => return None,
        };
        Some(Expression::PrefixExpr { token, operator, right: Box::new(right) })
    }

    #[verifier::spinoff_prover]
    fn parse_infix_expression(&mut self, left: Expression) -> (r: Option<Expression>)
        requires
            old(self).wf(),
            cur(old(self).toks(), old(self).st()).kind != TokenType::EOF,
        ensures
            old(self).keeps(*final(self)),
            oexpr(r) == p_infix(old(self).toks(), old(self).st(), left@).0,
            final(self).st() == p_infix(old(self).toks(), old(self).st(), left@).1,
        decreases old(self).remaining(), 4nat,
    {
        let token = self.cur_token();
        let operator = token.literal();
        let precedence = self.cur_precedence();
        self.next_token();
        let right = match self.parse_expression(precedence) {
            Some(e) => e,
            None => return None,
        };
        Some(Expression::InfixExpr { token, left: Box::new(left), operator, right: Box::new(right) })
    }

    #[verifier::spinoff_prover]
    fn parse_call_expression(&mut self, function: Expression) -> (r: Option<Expression>)
        requires
            old(self).wf(),
            cur(old(self).toks(), old(self).st()).kind != TokenType::EOF,
        ensures
            old(self).keeps(*final(self)),
            oexpr(r) == p_call(old(self).toks(), old(self).st(), function@).0,
            final(self).st() == p_call(old(self).toks(), old(self).st(), function@).1,
        decreases old(self).remaining(), 4nat,
    {
        let token = self.cur_token();
        let arguments = match self.parse_expression_list(TokenType::RPAREN) {
            Some(a) => a,
            None => return None,
        };
        Some(Expression::CallExpr { token, function: Box::new(function), arguments })
    }

    #[verifier::spinoff_prover]
    fn parse_index_expression(&mut self, left: Expression) -> (r: Option<Expression>)
        requires
            old(self).wf(),
            cur(old(self).toks(), old(self).st()).kind != TokenType::EOF,
        ensures
            old(self).keeps(*final(self)),
            oexpr(r) == p_index(old(self).toks(), old(self).st(), left@).0,
            final(self).st() == p_index(old(self).toks(), old(self).st(), left@).1,
        decreases old(self).remaining(), 4nat,
    {
        let token = self.cur_token();
        self.next_token();
        let index = match self.parse_expression(LOWEST) {
            Some(e) => e,
            None => return None,
        };
        if !self.expect_peek(TokenType::RBRACKET) {
            return None;
        }
        Some(Expression::IndexExpr { token, left: Box::new(left), index: Box::new(index) })
    }

    #[verifier::spinoff_prover]
    fn parse_boolean(&self) -> (r: Option<Expression>)
        requires
            self.wf(),
        ensures
            oexpr(r) == Some(SExpr::BooleanLiteral {
                token: cur(self.toks(), self.st()),
                value: cur(self.toks(), self.st()).kind == TokenType::TRUE,
            }),
    {
        let value = self.cur_kind() == TokenType::TRUE;
        Some(Expression::BooleanLiteral { token: self.cur_token(), value })
    }

    #[verifier::spinoff_prover]
    fn parse_string_literal(&self) -> (r: Option<Expression>)
        requires
            self.wf(),
        ensures
            oexpr(r) == Some(SExpr::StringLiteral {
                token: cur(self.toks(), self.st()),
                value: cur(self.toks(), self.st()).text,
            }),
    {
        let token = self.cur_token();
        let value = token.literal();
        Some(Expression::StringLiteral { token, value })
    }

    #[verifier::spinoff_prover]
    fn parse_grouped_expression(&mut self) -> (r: Option<Expression>)
        requires
            old(self).wf(),
            cur(old(self).toks(), old(self).st()).kind != TokenType::EOF,
        ensures
            old(self).keeps(*final(self)),
            oexpr(r) == p_grouped(old(self).toks(), old(self).st()).0,
            final(self).st() == p_grouped(old(self).toks(), old(self).st()).1,
        decreases old(self).remaining(), 4nat,
    {
        self.next_token();
        let exp = self.parse_expression(LOWEST);
        if !self.expect_peek(TokenType::RPAREN) {
            return None;
        }
        exp
    }

    #[verifier::spinoff_prover]
    fn parse_if_expression(&mut self) -> (r: Option<Expression>)
        requires
            old(self).wf(),
            cur(old(self).toks(), old(self).st()).kind != TokenType::EOF,
        ensures
            old(self).keeps(*final(self)),
            oexpr(r) == p_if(old(self).toks(), old(self).st()).0,
            final(self).st() == p_if(old(self).toks(), old(self).st()).1,
        decreases old(self).remaining(), 4nat,
    {
        let token = self.cur_token();
        if !self.expect_peek(TokenType::LPAREN) {
            return None;
        }
        self.next_token();
        let condition = match self.parse_expression(LOWEST) {
            Some(e) => e,
            None => return None,
        };
        if !self.expect_peek(TokenType::RPAREN) {
            return None;
        }
        if !self.expect_peek(TokenType::LBRACE) {
            return None;
        }
        let consequence = self.parse_block_statement();
        let alternative = if self.peek_kind() == TokenType::ELSE {
            self.next_token();
            if !self.expect_peek(TokenType::LBRACE) {
                return None;
            }
            Some(self.parse_block_statement())
        } else {
            None
        };
        Some(
            Expression::IfLiteral {
                token,
                condition: Box::new(condition),
                consequence,
                alternative,
            },
        )
    }

    #[verifier::spinoff_prover]
    fn parse_block_statement(&mut self) -> (b: BlockStatement)
        requires
            old(self).wf(),
            cur(old(self).toks(), old(self).st()).kind != TokenType::EOF,
        ensures
            old(self).keeps(*final(self)),
            b@ == p_block(old(self).toks(), old(self).st()).0,
            final(self).st() == p_block(old(self).toks(), old(self).st()).1,
        decreases old(self).remaining(), 2nat,
    {
        let ghost t = self.toks();
        let token = self.cur_token();
        let mut statements: Vec<Statement> = Vec::new();
        self.next_token();
        let ghost goal = p_block_loop(t, self.st(), Seq::empty());
        while self.cur_kind() != TokenType::RBRACE && self.cur_kind() != TokenType::EOF
            invariant
                old(self).keeps(*self),
                self.toks() == t,
                self.position > old(self).position,
                p_block_loop(t, self.st(), stmts_v(statements@)) == goal,
                goal == p_block_loop(t, next(t, old(self).st()), Seq::empty()),
            decreases self.tokens.len() - self.position,
        {
            let ghost before = self.st();
            let s = self.parse_statement();
            self.next_token();
            match s {
                Some(x) => {
                    proof {
                        assert(statements@.push(x).drop_last() =~= statements@);
                    }
                    statements.push(x);
                },
                None => {},
            }
            proof {
                assert(left(t, self.st()) < left(t, before));
            }
        }
        BlockStatement { token, statements }
    }

    #[verifier::spinoff_prover]
    fn parse_function_literal(&mut self) -> (r: Option<Expression>)
        requires
            old(self).wf(),
            cur(old(self).toks(), old(self).st()).kind != TokenType::EOF,
        ensures
            old(self).keeps(*final(self)),
            oexpr(r) == p_function(old(self).toks(), old(self).st(), false).0,
            final(self).st() == p_function(old(self).toks(), old(self).st(), false).1,
        decreases old(self).remaining(), 4nat,
    {
        self.parse_function_like(false)
    }

    #[verifier::spinoff_prover]
    fn parse_macro_literal(&mut self) -> (r: Option<Expression>)
        requires
            old(self).wf(),
            cur(old(self).toks(), old(self).st()).kind != TokenType::EOF,
        ensures
            old(self).keeps(*final(self)),
            oexpr(r) == p_function(old(self).toks(), old(self).st(), true).0,
            final(self).st() == p_function(old(self).toks(), old(self).st(), true).1,
        decreases old(self).remaining(), 4nat,
    {
        self.parse_function_like(true)
    }

    #[verifier::spinoff_prover]
    fn parse_function_like(&mut self, is_macro: bool) -> (r: Option<Expression>)
        requires
            old(self).wf(),
            cur(old(self).toks(), old(self).st()).kind != TokenType::EOF,
        ensures
            old(self).keeps(*final(self)),
            oexpr(r) == p_function(old(self).toks(), old(self).st(), is_macro).0,
            final(self).st() == p_function(old(self).toks(), old(self).st(), is_macro).1,
        decreases old(self).remaining(), 3nat,
    {
        let token = self.cur_token();
        if !self.expect_peek(TokenType::LPAREN) {
            return None;
        }
        let parameters = match self.parse_function_parameters() {
            Some(p) => p,
            None => return None,
        };
        if !self.expect_peek(TokenType::LBRACE) {
            return None;
        }
        let body = self.parse_block_statement();
        if is_macro {
            Some(Expression::MacroLiteral { token, parameters, body })
        } else {
            Some(Expression::FunctionLiteral { token, parameters, body })
        }
    }

    #[verifier::spinoff_prover]
    fn parse_function_parameters(&mut self) -> (r: Option<Vec<Identifier>>)
        requires
            old(self).wf(),
        ensures
            old(self).keeps(*final(self)),
            match r {
                Some(v) => p_params(old(self).toks(), old(self).st()).0 == Some(idents_v(v@)),
                None => p_params(old(self).toks(), old(self).st()).0 is None,
            },
            final(self).st() == p_params(old(self).toks(), old(self).st()).1,
    {
        let ghost t = self.toks();
        let mut identifiers: Vec<Identifier> = Vec::new();
        if self.peek_kind() == TokenType::RPAREN {
            self.next_token();
            proof {
                assert(idents_v(identifiers@) =~= Seq::<SIdent>::empty());
            }
            return Some(identifiers);
        }
        self.next_token();
        identifiers.push(self.cur_ident());
        proof {
            assert(idents_v(identifiers@) =~= seq![ident_of(cur(t, self.st()))]);
        }
        let ghost goal = p_params_loop(t, self.st(), idents_v(identifiers@));
        while self.peek_kind() == TokenType::COMMA
            invariant
                old(self).keeps(*self),
                self.toks() == t,
                p_params_loop(t, self.st(), idents_v(identifiers@)) == goal,
                goal == p_params_loop(t, next(t, old(self).st()), seq![ident_of(cur(t, next(t, old(self).st())))]),
                peek(t, old(self).st()).kind != TokenType::RPAREN,
            decreases self.tokens.len() - self.position,
        {
            self.next_token();
            self.next_token();
            let i = self.cur_ident();
            proof {
                assert(idents_v(identifiers@.push(i)) =~= idents_v(identifiers@).push(i@));
            }
            identifiers.push(i);
        }
        if !self.expect_peek(TokenType::RPAREN) {
            return None;
        }
        Some(identifiers)
    }

    #[verifier::spinoff_prover]
    fn parse_array_literal(&mut self) -> (r: Option<Expression>)
        requires
            old(self).wf(),
            cur(old(self).toks(), old(self).st()).kind != TokenType::EOF,
        ensures
            old(self).keeps(*final(self)),
            oexpr(r) == p_array(old(self).toks(), old(self).st()).0,
            final(self).st() == p_array(old(self).toks(), old(self).st()).1,
        decreases old(self).remaining(), 4nat,
    {
        let token = self.cur_token();
        let elements = match self.parse_expression_list(TokenType::RBRACKET) {
            Some(e) => e,
            None => return None,
        };
        Some(Expression::ArrayLiteral { token, elements })
    }

    #[verifier::spinoff_prover]
    fn parse_expression_list(&mut self, end: TokenType) -> (r: Option<Vec<Expression>>)
        requires
            old(self).wf(),
            cur(old(self).toks(), old(self).st()).kind != TokenType::EOF,
        ensures
            old(self).keeps(*final(self)),
            oexprs(r) == p_expression_list(old(self).toks(), old(self).st(), end).0,
            final(self).st() == p_expression_list(old(self).toks(), old(self).st(), end).1,
        decreases old(self).remaining(), 3nat,
    {
        let ghost t = self.toks();
        let mut list: Vec<Expression> = Vec::new();
        if self.peek_kind() == end {
            self.next_token();
            proof {
                assert(exprs_v(list@) =~= Seq::<SExpr>::empty());
            }
            return Some(list);
        }
        self.next_token();
        let first = match self.parse_expression(LOWEST) {
            Some(e) => e,
            None => return None,
        };
        proof {
            assert(list@.push(first).drop_last() =~= list@);
        }
        list.push(first);
        proof {
            assert(list@.drop_last() =~= Seq::<Expression>::empty());
            assert(exprs_v(Seq::<Expression>::empty()) =~= Seq::<SExpr>::empty());
            assert(exprs_v(list@) =~= seq![first@]);
        }
        let ghost goal = p_list_loop(t, self.st(), exprs_v(list@), end);
        while self.peek_kind() == TokenType::COMMA
            invariant_except_break
                old(self).keeps(*self),
                self.toks() == t,
                p_list_loop(t, self.st(), exprs_v(list@), end) == goal,
                goal == p_expression_list(t, old(self).st(), end),
            ensures
                old(self).keeps(*self),
                self.toks() == t,
                p_list_loop(t, self.st(), exprs_v(list@), end) == goal,
                peek(t, self.st()).kind != TokenType::COMMA,
                goal == p_expression_list(t, old(self).st(), end),
            decreases self.tokens.len() - self.position,
        {
            let ghost before = self.st();
            self.next_token();
            self.next_token();
            let e = match self.parse_expression(LOWEST) {
                Some(e) => e,
                None => return None,
            };
            proof {
                assert(list@.push(e).drop_last() =~= list@);
                assert(left(t, self.st()) < left(t, before));
            }
            list.push(e);
        }
        if !self.expect_peek(end) {
            return None;
        }
        Some(list)
    }

    #[verifier::spinoff_prover]
    fn parse_hash_literal(&mut self) -> (r: Option<Expression>)
        requires
            old(self).wf(),
            cur(old(self).toks(), old(self).st()).kind != TokenType::EOF,
        ensures
            old(self).keeps(*final(self)),
            oexpr(r) == p_hash(old(self).toks(), old(self).st()).0,
            final(self).st() == p_hash(old(self).toks(), old(self).st()).1,
        decreases old(self).remaining(), 4nat,
    {
        let ghost t = self.toks();
        let token = self.cur_token();
        let mut pairs: Vec<HashPair> = Vec::new();
        let ghost goal = p_hash_loop(t, self.st(), Seq::empty());
        proof {
            assert(pairs_v(pairs@) =~= Seq::<SPair>::empty());
        }
        while self.peek_kind() != TokenType::RBRACE
            invariant_except_break
                old(self).keeps(*self),
                self.toks() == t,
                cur(t, self.st()).kind != TokenType::EOF,
                p_hash_loop(t, self.st(), pairs_v(pairs@)) == goal,
                goal == p_hash_loop(t, old(self).st(), Seq::empty()),
            ensures
                old(self).keeps(*self),
                self.toks() == t,
                goal == (Some(pairs_v(pairs@)), self.st()),
                goal == p_hash_loop(t, old(self).st(), Seq::empty()),
            decreases self.tokens.len() - self.position,
        {
            let ghost before = self.st();
            self.next_token();
            let key = match self.parse_expression(LOWEST) {
                Some(e) => e,
                None => return None,
            };
            if !self.expect_peek(TokenType::COLON) {
                return None;
            }
            self.next_token();
            let value = match self.parse_expression(LOWEST) {
                Some(e) => e,
                None => return None,
            };
            let pair = HashPair { key, value };
            proof {
                assert(pairs@.push(pair).drop_last() =~= pairs@);
                assert(pairs_v(pairs@.push(pair)) =~= pairs_v(pairs@).push(pair@));
            }
            pairs.push(pair);
            if self.peek_kind() != TokenType::RBRACE && !self.expect_peek(TokenType::COMMA) {
                return None;
            }
            proof {
                assert(left(t, self.st()) < left(t, before));
            }
        }
        if !self.expect_peek(TokenType::RBRACE) {
            return None;
        }
        Some(Expression::HashLiteral { token, pairs })
    }
}

fn get_token_precedence(k: TokenType) -> (p: u8)
    ensures
        p == precedence(k),
{
    match k {
        TokenType::EQ | TokenType::NOT_EQ => EQUALS,
        TokenType::LT | TokenType::GT => LESSGREATER,
        TokenType::PLUS | TokenType::MINUS => SUM,
        TokenType::SLASH | TokenType::ASTERISK => PRODUCT,
        TokenType::LPAREN => CALL,
        TokenType::LBRACKET => INDEX,
        _ => LOWEST,
    }
}

fn int_error_string(k: &IntErrorKind) -> (s: String)
    ensures
        s@ == int_error_text(*k),
{
    let t: &str = match k {
        IntErrorKind::Empty => "cannot parse integer from empty string",
        IntErrorKind::InvalidDigit => "invalid digit found in string",
        IntErrorKind::PosOverflow => "number too large to fit in target type",
        IntErrorKind::NegOverflow => "number too small to fit in target type",
    };
    t.to_owned()
}

} // verus!
