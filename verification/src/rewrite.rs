use vstd::prelude::*;

use crate::ast::{
    copy_idents, exprs_v, expr_v, pairs_v, stmt_v, stmts_v,
    BlockStatement, Expression, HashPair, Program, SBlock, SExpr, SPair, SStmt, Statement,
};

verus! {

// ---------------------------------------------------------------------------
// Rewriting the tree in place
// ---------------------------------------------------------------------------

/// Something that rewrites expressions one at a time, and may change as it goes.
pub trait Modifier: Sized {
    /// The expression that this modifier puts in place of `e`.
    spec fn replacement(&self, e: SExpr) -> SExpr;

    /// This modifier after it has rewritten `e`.
    spec fn after(&self, e: SExpr) -> Self;

    /// Rewrites one expression.
    fn modify(&mut self, expression: Expression) -> (r: Expression)
        ensures
            r@ == old(self).replacement(expression@),
            *final(self) == old(self).after(expression@),
    ;
}

/// The modifier applied to `e`: its new state and the replacement of `e`.
pub open spec fn visit<M: Modifier>(m: M, e: SExpr) -> (M, SExpr) {
    (m.after(e), m.replacement(e))
}

/// An expression rewritten bottom-up, left to right: every child is rewritten before its
/// parent, and the modifier then sees the parent with its rewritten children.
pub open spec fn modify_expr_s<M: Modifier>(m: M, e: SExpr) -> (M, SExpr)
    decreases e,
{
    match e {
        SExpr::PrefixExpr { token, operator, right } => {
            let (m1, r) = modify_expr_s(m, *right);
            visit(m1, SExpr::PrefixExpr { token, operator, right: Box::new(r) })
        },
        SExpr::InfixExpr { token, left, operator, right } => {
            let (m1, l) = modify_expr_s(m, *left);
            let (m2, r) = modify_expr_s(m1, *right);
            visit(m2, SExpr::InfixExpr { token, left: Box::new(l), operator, right: Box::new(r) })
        },
        SExpr::IfLiteral { token, condition, consequence, alternative } => {
            let (m1, c) = modify_expr_s(m, *condition);
            let (m2, cons) = modify_block_s(m1, consequence);
            let (m3, alt) = match alternative {
                Some(b) => {
                    let (m3, b2) = modify_block_s(m2, b);
                    (m3, Some(b2))
                },
                None => (m2, None),
            };
            visit(
                m3,
                SExpr::IfLiteral { token, condition: Box::new(c), consequence: cons, alternative: alt },
            )
        },
        SExpr::FunctionLiteral { token, parameters, body } => {
            let (m1, b) = modify_block_s(m, body);
            visit(m1, SExpr::FunctionLiteral { token, parameters, body: b })
        },
        SExpr::CallExpr { token, function, arguments } => {
            let (m1, f) = modify_expr_s(m, *function);
            let (m2, args) = modify_exprs_s(m1, arguments);
            visit(m2, SExpr::CallExpr { token, function: Box::new(f), arguments: args })
        },
        SExpr::ArrayLiteral { token, elements } => {
            let (m1, els) = modify_exprs_s(m, elements);
            visit(m1, SExpr::ArrayLiteral { token, elements: els })
        },
        SExpr::IndexExpr { token, left, index } => {
            let (m1, l) = modify_expr_s(m, *left);
            let (m2, i) = modify_expr_s(m1, *index);
            visit(m2, SExpr::IndexExpr { token, left: Box::new(l), index: Box::new(i) })
        },
        SExpr::HashLiteral { token, pairs } => {
            let (m1, ps) = modify_pairs_s(m, pairs);
            visit(m1, SExpr::HashLiteral { token, pairs: ps })
        },
        _ => visit(m, e),
    }
}

/// Expressions rewritten one after another, left to right.
pub open spec fn modify_exprs_s<M: Modifier>(m: M, s: Seq<SExpr>) -> (M, Seq<SExpr>)
    decreases s,
{
    if s.len() == 0 {
        (m, s)
    } else {
        let (m1, init) = modify_exprs_s(m, s.drop_last());
        let (m2, x) = modify_expr_s(m1, s.last());
        (m2, init.push(x))
    }
}

/// The pairs of a hash literal rewritten one after another: each key before its value.
pub open spec fn modify_pairs_s<M: Modifier>(m: M, s: Seq<SPair>) -> (M, Seq<SPair>)
    decreases s,
{
    if s.len() == 0 {
        (m, s)
    } else {
        let (m1, init) = modify_pairs_s(m, s.drop_last());
        let (m2, k) = modify_expr_s(m1, s.last().key);
        let (m3, v) = modify_expr_s(m2, s.last().value);
        (m3, init.push(SPair { key: k, value: v }))
    }
}

/// A statement with the expressions in it rewritten.
pub open spec fn modify_stmt_s<M: Modifier>(m: M, s: SStmt) -> (M, SStmt)
    decreases s,
{
    match s {
        SStmt::Let { token, name, value } => {
            let (m1, v) = modify_expr_s(m, value);
            (m1, SStmt::Let { token, name, value: v })
        },
        SStmt::Return { token, value } => {
            let (m1, v) = modify_expr_s(m, value);
            (m1, SStmt::Return { token, value: v })
        },
        SStmt::Expression { token, expression } => {
            let (m1, v) = modify_expr_s(m, expression);
            (m1, SStmt::Expression { token, expression: v })
        },
        SStmt::Block(b) => {
            let (m1, b2) = modify_block_s(m, b);
            (m1, SStmt::Block(b2))
        },
    }
}

/// Statements rewritten one after another.
pub open spec fn modify_stmts_s<M: Modifier>(m: M, s: Seq<SStmt>) -> (M, Seq<SStmt>)
    decreases s,
{
    if s.len() == 0 {
        (m, s)
    } else {
        let (m1, init) = modify_stmts_s(m, s.drop_last());
        let (m2, x) = modify_stmt_s(m1, s.last());
        (m2, init.push(x))
    }
}

/// A block with the expressions in it rewritten.
pub open spec fn modify_block_s<M: Modifier>(m: M, b: SBlock) -> (M, SBlock)
    decreases b,
{
    let (m1, s) = modify_stmts_s(m, b.statements);
    (m1, SBlock { token: b.token, statements: s })
}

// ---------------------------------------------------------------------------
// A modifier that changes nothing
// ---------------------------------------------------------------------------

/// Whether a modifier leaves every expression as it is, and stays as it is.
pub open spec fn keeps_all<M: Modifier>(m: M) -> bool {
    forall|x: SExpr| #![trigger m.replacement(x)] #![trigger m.after(x)] m.replacement(x) == x && m.after(x) == m
}

/// A rewrite with a modifier that changes nothing leaves an expression, and the modifier,
/// as they were.
pub proof fn law_unchanged_expression<M: Modifier>(m: M, e: SExpr)
    requires
        keeps_all(m),
    ensures
        modify_expr_s(m, e) == (m, e),
    decreases e,
{
    match e {
        SExpr::PrefixExpr { right, .. } => {
            law_unchanged_expression(m, *right);
        },
        SExpr::InfixExpr { left, right, .. } => {
            law_unchanged_expression(m, *left);
            law_unchanged_expression(m, *right);
        },
        SExpr::IfLiteral { condition, consequence, alternative, .. } => {
            law_unchanged_expression(m, *condition);
            law_unchanged_block(m, consequence);
            match alternative {
                Some(b) => law_unchanged_block(m, b),
                None => {},
            }
        },
        SExpr::FunctionLiteral { body, .. } => {
            law_unchanged_block(m, body);
        },
        SExpr::CallExpr { function, arguments, .. } => {
            law_unchanged_expression(m, *function);
            law_unchanged_expressions(m, arguments);
        },
        SExpr::ArrayLiteral { elements, .. } => {
            law_unchanged_expressions(m, elements);
        },
        SExpr::IndexExpr { left, index, .. } => {
            law_unchanged_expression(m, *left);
            law_unchanged_expression(m, *index);
        },
        SExpr::HashLiteral { pairs, .. } => {
            law_unchanged_pairs(m, pairs);
        },
        _ => {},
    }
}

proof fn law_unchanged_expressions<M: Modifier>(m: M, s: Seq<SExpr>)
    requires
        keeps_all(m),
    ensures
        modify_exprs_s(m, s) == (m, s),
    decreases s,
{
    if s.len() > 0 {
        law_unchanged_expressions(m, s.drop_last());
        law_unchanged_expression(m, s.last());
        assert(s.drop_last().push(s.last()) =~= s);
    }
}

proof fn law_unchanged_pairs<M: Modifier>(m: M, s: Seq<SPair>)
    requires
        keeps_all(m),
    ensures
        modify_pairs_s(m, s) == (m, s),
    decreases s,
{
    if s.len() > 0 {
        law_unchanged_pairs(m, s.drop_last());
        law_unchanged_expression(m, s.last().key);
        law_unchanged_expression(m, s.last().value);
        assert(s.drop_last().push(SPair { key: s.last().key, value: s.last().value }) =~= s);
    }
}

/// A rewrite with a modifier that changes nothing leaves a statement as it was.
pub proof fn law_unchanged_statement<M: Modifier>(m: M, s: SStmt)
    requires
        keeps_all(m),
    ensures
        modify_stmt_s(m, s) == (m, s),
    decreases s,
{
    match s {
        SStmt::Let { value, .. } => law_unchanged_expression(m, value),
        SStmt::Return { value, .. } => law_unchanged_expression(m, value),
        SStmt::Expression { expression, .. } => law_unchanged_expression(m, expression),
        SStmt::Block(b) => law_unchanged_block(m, b),
    }
}

/// A rewrite with a modifier that changes nothing leaves a program as it was.
pub proof fn law_unchanged_statements<M: Modifier>(m: M, s: Seq<SStmt>)
    requires
        keeps_all(m),
    ensures
        modify_stmts_s(m, s) == (m, s),
    decreases s,
{
    if s.len() > 0 {
        law_unchanged_statements(m, s.drop_last());
        law_unchanged_statement(m, s.last());
        assert(s.drop_last().push(s.last()) =~= s);
    }
}

proof fn law_unchanged_block<M: Modifier>(m: M, b: SBlock)
    requires
        keeps_all(m),
    ensures
        modify_block_s(m, b) == (m, b),
    decreases b,
{
    law_unchanged_statements(m, b.statements);
}

#[verifier::spinoff_prover]
fn modify_expr_vec<M: Modifier>(v: &Vec<Expression>, m: &mut M) -> (r: Vec<Expression>)
    ensures
        *final(m) == modify_exprs_s(*old(m), exprs_v(v@)).0,
        exprs_v(r@) == modify_exprs_s(*old(m), exprs_v(v@)).1,
    decreases v, 1int,
{
    let ghost m0 = *m;
    let mut r: Vec<Expression> = Vec::new();
    let mut k: usize = 0;
    while k < v.len()
        invariant
            k <= v.len(),
            *m == modify_exprs_s(m0, exprs_v(v@.take(k as int))).0,
            exprs_v(r@) == modify_exprs_s(m0, exprs_v(v@.take(k as int))).1,
        decreases v.len() - k,
    {
        proof {
            assert(v@.take(k + 1).drop_last() =~= v@.take(k as int));
            assert(v@.take(k + 1).last() == v@[k as int]);
            assert(exprs_v(v@.take(k + 1)) == exprs_v(v@.take(k as int)).push(expr_v(v@[k as int])));
        }
        let ghost ma = *m;
        let y = modify_ref(&v[k], m);
        proof {
            let x = expr_v(v@[k as int]);
            let s = exprs_v(v@.take(k + 1));
            assert(s.drop_last() == exprs_v(v@.take(k as int)));
            assert(s.last() == x);
            assert(modify_expr_s(ma, x) == (*m, y@));
            assert(r@.push(y).drop_last() =~= r@);
            assert(exprs_v(r@.push(y)) == exprs_v(r@).push(y@));
        }
        r.push(y);
        k = k + 1;
    }
    proof {
        assert(v@.take(k as int) =~= v@);
    }
    r
}

#[verifier::spinoff_prover]
fn modify_pair_vec<M: Modifier>(v: &Vec<HashPair>, m: &mut M) -> (r: Vec<HashPair>)
    ensures
        *final(m) == modify_pairs_s(*old(m), pairs_v(v@)).0,
        pairs_v(r@) == modify_pairs_s(*old(m), pairs_v(v@)).1,
    decreases v, 1int,
{
    let ghost m0 = *m;
    proof {
        assert(v@.take(0) =~= Seq::<HashPair>::empty());
    }
    let mut r: Vec<HashPair> = Vec::new();
    let mut k: usize = 0;
    while k < v.len()
        invariant
            k <= v.len(),
            *m == modify_pairs_s(m0, pairs_v(v@.take(k as int))).0,
            pairs_v(r@) == modify_pairs_s(m0, pairs_v(v@.take(k as int))).1,
        decreases v.len() - k,
    {
        proof {
            assert(v@.take(k + 1).drop_last() =~= v@.take(k as int));
            assert(v@.take(k + 1).last() == v@[k as int]);
            assert(pairs_v(v@.take(k + 1)) == pairs_v(v@.take(k as int)).push(v@[k as int]@));
        }
        let ghost ma = *m;
        let key = modify_ref(&v[k].key, m);
        let ghost mb = *m;
        let value = modify_ref(&v[k].value, m);
        let y = HashPair { key, value };
        proof {
            let x = v@[k as int]@;
            assert(x.key == v@[k as int].key@);
            assert(x.value == v@[k as int].value@);
            assert(pairs_v(v@.take(k + 1)).drop_last() == pairs_v(v@.take(k as int)));
            assert(pairs_v(v@.take(k + 1)).last() == x);
            assert(modify_expr_s(ma, x.key) == (mb, key@));
            assert(modify_expr_s(mb, x.value) == (*m, value@));
            assert(r@.push(y).drop_last() =~= r@);
            assert(pairs_v(r@.push(y)) == pairs_v(r@).push(y@));
        }
        r.push(y);
        k = k + 1;
    }
    proof {
        assert(v@.take(k as int) =~= v@);
    }
    r
}

#[verifier::spinoff_prover]
fn modify_stmt_vec<M: Modifier>(v: &Vec<Statement>, m: &mut M) -> (r: Vec<Statement>)
    ensures
        *final(m) == modify_stmts_s(*old(m), stmts_v(v@)).0,
        stmts_v(r@) == modify_stmts_s(*old(m), stmts_v(v@)).1,
    decreases v, 1int,
{
    let ghost m0 = *m;
    proof {
        assert(v@.take(0) =~= Seq::<Statement>::empty());
    }
    let mut r: Vec<Statement> = Vec::new();
    let mut k: usize = 0;
    while k < v.len()
        invariant
            k <= v.len(),
            *m == modify_stmts_s(m0, stmts_v(v@.take(k as int))).0,
            stmts_v(r@) == modify_stmts_s(m0, stmts_v(v@.take(k as int))).1,
        decreases v.len() - k,
    {
        proof {
            assert(v@.take(k + 1).drop_last() =~= v@.take(k as int));
            assert(v@.take(k + 1).last() == v@[k as int]);
            assert(stmts_v(v@.take(k + 1)) == stmts_v(v@.take(k as int)).push(stmt_v(v@[k as int])));
        }
        let ghost ma = *m;
        let y = modify_stmt_ref(&v[k], m);
        proof {
            let x = stmt_v(v@[k as int]);
            let s = stmts_v(v@.take(k + 1));
            assert(s.drop_last() == stmts_v(v@.take(k as int)));
            assert(s.last() == x);
            assert(modify_stmt_s(ma, x) == (*m, y@));
            assert(r@.push(y).drop_last() =~= r@);
            assert(stmts_v(r@.push(y)) == stmts_v(r@).push(y@));
        }
        r.push(y);
        k = k + 1;
    }
    proof {
        assert(v@.take(k as int) =~= v@);
    }
    r
}

#[verifier::spinoff_prover]
fn modify_block_ref<M: Modifier>(b: &BlockStatement, m: &mut M) -> (r: BlockStatement)
    ensures
        *final(m) == modify_block_s(*old(m), b@).0,
        r@ == modify_block_s(*old(m), b@).1,
    decreases b, 2int,
{
    let ghost m0 = *m;
    let ghost bv = b@;
    proof {
        assert(bv.statements == stmts_v(b.statements@));
    }
    let statements = modify_stmt_vec(&b.statements, m);
    let r = BlockStatement { token: b.token.duplicate(), statements };
    proof {
        assert(r@ == SBlock { token: bv.token, statements: stmts_v(statements@) });
        assert(modify_block_s(m0, bv).0 == modify_stmts_s(m0, bv.statements).0);
        assert(modify_block_s(m0, bv).1 == SBlock {
            token: bv.token,
            statements: modify_stmts_s(m0, bv.statements).1,
        });
    }
    r
}

#[verifier::spinoff_prover]
#[verifier::rlimit(40)]
fn modify_stmt_ref<M: Modifier>(s: &Statement, m: &mut M) -> (r: Statement)
    ensures
        *final(m) == modify_stmt_s(*old(m), s@).0,
        r@ == modify_stmt_s(*old(m), s@).1,
    decreases s, 2int,
{
    proof {
    }
    match s {
        Statement::Let { token, name, value } => {
            let value = modify_ref(value, m);
            Statement::Let { token: token.duplicate(), name: name.duplicate(), value }
        },
        Statement::Return { token, value } => {
            let value = modify_ref(value, m);
            Statement::Return { token: token.duplicate(), value }
        },
        Statement::Expression { token, expression } => {
            let expression = modify_ref(expression, m);
            Statement::Expression { token: token.duplicate(), expression }
        },
        Statement::Block(b) => Statement::Block(modify_block_ref(b, m)),
    }
}

#[verifier::spinoff_prover]
#[verifier::rlimit(40)]
fn modify_ref<M: Modifier>(e: &Expression, m: &mut M) -> (r: Expression)
    ensures
        *final(m) == modify_expr_s(*old(m), e@).0,
        r@ == modify_expr_s(*old(m), e@).1,
    decreases e, 2int,
{
    proof {
    }
    match e {
        Expression::PrefixExpr { token, operator, right } => {
            let r = modify_ref(right, m);
            m.modify(
                Expression::PrefixExpr {
                    token: token.duplicate(),
                    operator: operator.clone(),
                    right: Box::new(r),
                },
            )
        },
        Expression::InfixExpr { token, left, operator, right } => {
            let l = modify_ref(left, m);
            let r = modify_ref(right, m);
            m.modify(
                Expression::InfixExpr {
                    token: token.duplicate(),
                    left: Box::new(l),
                    operator: operator.clone(),
                    right: Box::new(r),
                },
            )
        },
        Expression::IfLiteral { token, condition, consequence, alternative } => {
            let c = modify_ref(condition, m);
            let cons = modify_block_ref(consequence, m);
            let alt = match alternative {
                Some(b) => Some(modify_block_ref(b, m)),
                None => None,
            };
            m.modify(
                Expression::IfLiteral {
                    token: token.duplicate(),
                    condition: Box::new(c),
                    consequence: cons,
                    alternative: alt,
                },
            )
        },
        Expression::FunctionLiteral { token, parameters, body } => {
            let body = modify_block_ref(body, m);
            let ps = copy_idents(parameters);
            m.modify(Expression::FunctionLiteral { token: token.duplicate(), parameters: ps, body })
        },
        Expression::CallExpr { token, function, arguments } => {
            let f = modify_ref(function, m);
            let args = modify_expr_vec(arguments, m);
            m.modify(
                Expression::CallExpr { token: token.duplicate(), function: Box::new(f), arguments: args },
            )
        },
        Expression::ArrayLiteral { token, elements } => {
            let els = modify_expr_vec(elements, m);
            m.modify(Expression::ArrayLiteral { token: token.duplicate(), elements: els })
        },
        Expression::IndexExpr { token, left, index } => {
            let l = modify_ref(left, m);
            let i = modify_ref(index, m);
            m.modify(
                Expression::IndexExpr { token: token.duplicate(), left: Box::new(l), index: Box::new(i) },
            )
        },
        Expression::HashLiteral { token, pairs } => {
            let ps = modify_pair_vec(pairs, m);
            m.modify(Expression::HashLiteral { token: token.duplicate(), pairs: ps })
        },
        _ => m.modify(e.duplicate()),
    }
}

/// Rewrites every expression in a program, statement by statement, bottom-up.
pub fn modify_program<M: Modifier>(program: &mut Program, modifier: &mut M)
    ensures
        *final(modifier) == modify_stmts_s(*old(modifier), old(program)@).0,
        final(program)@ == modify_stmts_s(*old(modifier), old(program)@).1,
{
    program.statements = modify_stmt_vec(&program.statements, modifier);
}

/// Rewrites every expression in a statement, bottom-up.
pub fn modify_statement<M: Modifier>(statement: &mut Statement, modifier: &mut M)
    ensures
        *final(modifier) == modify_stmt_s(*old(modifier), old(statement)@).0,
        final(statement)@ == modify_stmt_s(*old(modifier), old(statement)@).1,
{
    *statement = modify_stmt_ref(statement, modifier);
}

/// Rewrites an expression bottom-up: its children first, then the expression itself.
pub fn modify_expression<M: Modifier>(expression: &mut Expression, modifier: &mut M)
    ensures
        *final(modifier) == modify_expr_s(*old(modifier), old(expression)@).0,
        final(expression)@ == modify_expr_s(*old(modifier), old(expression)@).1,
{
    *expression = modify_ref(expression, modifier);
}

} // verus!
