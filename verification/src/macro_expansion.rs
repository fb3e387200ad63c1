use vstd::prelude::*;

use crate::ast::{
    copy_idents, idents_v, stmt_v, stmts_v, BlockStatement, Expression, Identifier, Program, SBlock, SIdent,
    SPair, SStmt, SExpr, Statement,
};
use crate::environment::{assign, EnvironmentRef, Runtime, SRuntime};
use crate::evaluator::{
    candidate, rewrite_stmts, rw_block, rw_expr, rw_exprs, rw_pairs, rw_stmt, rw_stmts, Fault, Halt,
    Mode, Status, STEPS,
};
use crate::environment::lookup;
use crate::object::{Object, SObject};
use crate::token::SToken;

verus! {

// ---------------------------------------------------------------------------
// Macros: their definitions, and their expansion
// ---------------------------------------------------------------------------

/// The name, parameters and body of a statement that defines a macro: `let name = macro(..) {..}`.
pub open spec fn macro_def(s: SStmt) -> Option<(Seq<char>, Seq<SIdent>, SBlock)> {
    match s {
        SStmt::Let { name, value, .. } => match value {
            SExpr::MacroLiteral { parameters, body, .. } => Some((name.value, parameters, body)),
            _ => None,
        },
        _ => None,
    }
}

/// Statements with the macro definitions taken out, each macro bound in scope `env`, in order.
pub open spec fn define_s(rt: SRuntime, env: nat, s: Seq<SStmt>) -> (SRuntime, Seq<SStmt>)
    decreases s.len(),
{
    if s.len() == 0 {
        (rt, s)
    } else {
        let (rt1, kept) = define_s(rt, env, s.drop_last());
        match macro_def(s.last()) {
            Some((n, ps, b)) => (
                assign(rt1, env as int, n, SObject::Macro { parameters: ps, body: b, env }),
                kept,
            ),
            None => (rt1, kept.push(s.last())),
        }
    }
}

/// The statements that are not macro definitions, in order.
pub open spec fn non_macros(s: Seq<SStmt>) -> Seq<SStmt> {
    s.filter(|x: SStmt| macro_def(x) is None)
}

/// Taking out the macro definitions keeps every other statement, in order.
pub proof fn lemma_define_keeps(rt: SRuntime, env: nat, s: Seq<SStmt>)
    ensures
        define_s(rt, env, s).1 == non_macros(s),
    decreases s.len(),
{
    if s.len() > 0 {
        lemma_define_keeps(rt, env, s.drop_last());
        let p = |x: SStmt| macro_def(x) is None;
        assert(non_macros(s) == s.filter(p));
        assert(non_macros(s.drop_last()) == s.drop_last().filter(p));
        reveal(Seq::filter);
        assert(s.filter(p) == if p(s.last()) {
            s.drop_last().filter(p).push(s.last())
        } else {
            s.drop_last().filter(p)
        });
    }
}

/// The parts of a statement that defines a macro.
#[verifier::spinoff_prover]
#[verifier::rlimit(30)]
fn macro_parts(s: &Statement) -> (r: Option<(String, Vec<Identifier>, BlockStatement)>)
    ensures
        match r {
            Some((n, ps, b)) => macro_def(s@) == Some((n@, idents_v(ps@), b@)),
            None => macro_def(s@) is None,
        },
{
    match s {
        Statement::Let { name, value, .. } => match value {
            Expression::MacroLiteral { parameters, body, .. } => {
                let n = name.value.clone();
                let ps = copy_idents(parameters);
                let b = body.duplicate();
                proof {
                    assert(stmt_v(*s) == SStmt::Let { token: stmt_v(*s)->Let_token, name: name@, value: value@ });
                }
                Some((n, ps, b))
            },
            _ => None,
        },
        _ => None,
    }
}

/// Takes the macro definitions out of a program, and binds each macro in scope `env`; the
/// other statements stay, in order.
#[verifier::spinoff_prover]
pub fn define_macros(program: &mut Program, env: EnvironmentRef, runtime: &mut Runtime)
    ensures
        final(runtime)@ == define_s(old(runtime)@, env.index as nat, old(program)@).0,
        final(program)@ == define_s(old(runtime)@, env.index as nat, old(program)@).1,
        final(program)@ == non_macros(old(program)@),
{
    let ghost rt0 = runtime@;
    let ghost en = env.index as nat;
    let mut old_statements: Vec<Statement> = Vec::new();
    std::mem::swap(&mut old_statements, &mut program.statements);
    let v = &old_statements;
    proof {
        assert(v@.take(0) =~= Seq::<Statement>::empty());
    }
    let mut kept: Vec<Statement> = Vec::new();
    let mut i: usize = 0;
    while i < v.len()
        invariant
            i <= v.len(),
            en == env.index as nat,
            runtime@ == define_s(rt0, en, stmts_v(v@.take(i as int))).0,
            stmts_v(kept@) == define_s(rt0, en, stmts_v(v@.take(i as int))).1,
        decreases v.len() - i,
    {
        proof {
            assert(v@.take(i + 1).drop_last() =~= v@.take(i as int));
            assert(v@.take(i + 1).last() == v@[i as int]);
            let s1 = stmts_v(v@.take(i + 1));
            assert(s1.drop_last() == stmts_v(v@.take(i as int)));
            assert(s1.last() == stmt_v(v@[i as int]));
        }
        match macro_parts(&v[i]) {
            Some((name, parameters, body)) => {
                let m = Object::Macro { parameters, body, env };
                let _ = runtime.set(env, name.as_str(), m);
            },
            None => {
                let ghost old_kept = kept@;
                kept.push(v[i].duplicate());
                proof {
                    assert(kept@.drop_last() =~= old_kept);
                }
            },
        }
        i = i + 1;
    }
    proof {
        assert(v@.take(v.len() as int) =~= v@);
        lemma_define_keeps(rt0, en, stmts_v(v@));
    }
    program.statements = kept;
}

/// Defining macros in scope `env` leaves what every scope made before it sees: the macros stay
/// in their own scope.
pub proof fn law_definitions_stay_in_their_scope(rt: SRuntime, env: nat, p: Seq<SStmt>, j: int, name: Seq<char>)
    requires
        j < env,
    ensures
        lookup(define_s(rt, env, p).0.envs, j, name) == lookup(rt.envs, j, name),
    decreases p.len(),
{
    if p.len() > 0 {
        let rt1 = define_s(rt, env, p.drop_last()).0;
        law_definitions_stay_in_their_scope(rt, env, p.drop_last(), j, name);
        match macro_def(p.last()) {
            Some((n, ps, b)) => {
                crate::environment::law_write_is_local(
                    rt1,
                    env as int,
                    n,
                    SObject::Macro { parameters: ps, body: b, env },
                    j,
                    name,
                );
            },
            None => {},
        }
    }
}

/// What defining macros leaves holds no macro definition.
proof fn lemma_define_leaves_none(rt: SRuntime, env: nat, s: Seq<SStmt>)
    ensures
        forall|i: int|
            0 <= i < define_s(rt, env, s).1.len() ==> #[trigger] macro_def(define_s(rt, env, s).1[i]) is None,
    decreases s.len(),
{
    if s.len() > 0 {
        lemma_define_leaves_none(rt, env, s.drop_last());
    }
}

/// Statements that hold no macro definition are left as they are, and so is the runtime.
proof fn lemma_define_none(rt: SRuntime, env: nat, s: Seq<SStmt>)
    requires
        forall|i: int| 0 <= i < s.len() ==> #[trigger] macro_def(s[i]) is None,
    ensures
        define_s(rt, env, s) == (rt, s),
    decreases s.len(),
{
    if s.len() > 0 {
        assert(macro_def(s[s.len() - 1]) is None);
        lemma_define_none(rt, env, s.drop_last());
        assert(s.drop_last().push(s.last()) =~= s);
    }
}

/// Defining macros a second time changes nothing: the program and the runtime that the first
/// time leaves stay as they are.
pub proof fn law_define_twice(rt: SRuntime, env: nat, p: Seq<SStmt>)
    ensures
        define_s(define_s(rt, env, p).0, env, define_s(rt, env, p).1) == define_s(rt, env, p),
{
    lemma_define_leaves_none(rt, env, p);
    lemma_define_none(define_s(rt, env, p).0, env, define_s(rt, env, p).1);
}

/// The outcome of expanding the macro calls of a program with the macros of scope `env`.
pub open spec fn expand_s(rt: SRuntime, env: nat, s: Seq<SStmt>) -> (SRuntime, Status, Seq<SStmt>) {
    rw_stmts(Mode::Expand, rt, Status::Going, env, s, STEPS as nat)
}

/// Expansion reaches into the else branch of an `if`: expanding `if (c) {a} else {b}` gives
/// the condition and first branch that expanding `if (c) {a}` gives, and, as its else branch,
/// the expansion of `b`'s statements as a program of their own, run from the runtime that the
/// condition and first branch leave; the runtime and outcome are those of that expansion.
#[verifier::spinoff_prover]
pub proof fn law_else_branch_is_expanded(
    rt: SRuntime,
    env: nat,
    token: SToken,
    condition: SExpr,
    consequence: SBlock,
    alternative: SBlock,
)
    ensures
        ({
            let without = SExpr::IfLiteral {
                token,
                condition: Box::new(condition),
                consequence,
                alternative: None,
            };
            let with = SExpr::IfLiteral {
                token,
                condition: Box::new(condition),
                consequence,
                alternative: Some(alternative),
            };
            let (rt2, st2, x) = rw_expr(Mode::Expand, rt, Status::Going, env, without, STEPS as nat);
            let (rt3, st3, alt) = expand_s(rt2, env, alternative.statements);
            st2 == Status::Going ==> rw_expr(Mode::Expand, rt, Status::Going, env, with, STEPS as nat) == (
                rt3,
                st3,
                SExpr::IfLiteral {
                    token,
                    condition: x->IfLiteral_condition,
                    consequence: x->IfLiteral_consequence,
                    alternative: Some(SBlock { token: alternative.token, statements: alt }),
                },
            )
        }),
{
    let f = STEPS as nat;
    let (rt1, st1, c) = rw_expr(Mode::Expand, rt, Status::Going, env, condition, f);
    let (rt2, st2, cons) = rw_block(Mode::Expand, rt1, st1, env, consequence, f);
    let without = SExpr::IfLiteral { token, condition: Box::new(condition), consequence, alternative: None };
    let with = SExpr::IfLiteral {
        token,
        condition: Box::new(condition),
        consequence,
        alternative: Some(alternative),
    };
    assert(rw_expr(Mode::Expand, rt, Status::Going, env, without, f) == (
        rt2,
        st2,
        SExpr::IfLiteral { token, condition: Box::new(c), consequence: cons, alternative: None },
    ));
    let (rt3, st3, alt) = rw_block(Mode::Expand, rt2, st2, env, alternative, f);
    assert(rw_expr(Mode::Expand, rt, Status::Going, env, with, f) == (
        rt3,
        st3,
        SExpr::IfLiteral { token, condition: Box::new(c), consequence: cons, alternative: Some(alt) },
    ));
    assert(alt == SBlock {
        token: alternative.token,
        statements: rw_stmts(Mode::Expand, rt2, st2, env, alternative.statements, f).2,
    });
}

/// Replaces each call of a macro bound in scope `env` by the expression its body quotes,
/// bottom-up; after the first failure nothing more is replaced. The failure's message is
/// returned; a fault is reported where the interpreter cannot go on.
pub fn try_expand_macros(program: &mut Program, env: EnvironmentRef, runtime: &mut Runtime) -> (r: Result<
    Result<(), String>,
    Fault,
>)
    ensures
        final(runtime)@ == expand_s(old(runtime)@, env.index as nat, old(program)@).0,
        final(program)@ == expand_s(old(runtime)@, env.index as nat, old(program)@).2,
        match expand_s(old(runtime)@, env.index as nat, old(program)@).1 {
            Status::Going => r == Ok::<Result<(), String>, Fault>(Ok(())),
            Status::Failed(m) => r matches Ok(Err(e)) && e@ == m,
            Status::Faulted(f) => r == Err::<Result<(), String>, Fault>(f),
        },
{
    let mut st: Option<Halt> = None;
    let statements = rewrite_stmts(Mode::Expand, &program.statements, env, runtime, &mut st, STEPS);
    program.statements = statements;
    match st {
        None => Ok(Ok(())),
        Some(Halt::Failed(m)) => Ok(Err(m)),
        Some(Halt::Faulted(f)) => Err(f),
    }
}

/// Replaces each call of a macro bound in scope `env` by the expression its body quotes,
/// where the expansion does not fault; the first failure's message is returned.
pub fn expand_macros(program: &mut Program, env: EnvironmentRef, runtime: &mut Runtime) -> (r: Result<(), String>)
    requires
        !(expand_s(old(runtime)@, env.index as nat, old(program)@).1 is Faulted),
    ensures
        final(runtime)@ == expand_s(old(runtime)@, env.index as nat, old(program)@).0,
        final(program)@ == expand_s(old(runtime)@, env.index as nat, old(program)@).2,
        match expand_s(old(runtime)@, env.index as nat, old(program)@).1 {
            Status::Failed(m) => r matches Err(e) && e@ == m,
            _ => r == Ok::<(), String>(()),
        },
{
    match try_expand_macros(program, env, runtime) {
        Ok(r) => r,
        Err(_) => Ok(()),
    }
}

// ---------------------------------------------------------------------------
// Expansion without macros
// ---------------------------------------------------------------------------

/// Whether no name has a macro for its value in scope `env`.
pub open spec fn no_macros(rt: SRuntime, env: nat) -> bool {
    forall|n: Seq<char>| !(#[trigger] lookup(rt.envs, env as int, n) matches Some(SObject::Macro { .. }))
}

proof fn lemma_plain_expression(rt: SRuntime, st: Status, env: nat, e: SExpr, fuel: nat)
    requires
        no_macros(rt, env),
    ensures
        rw_expr(Mode::Expand, rt, st, env, e, fuel) == (rt, st, e),
    decreases e,
{
    match e {
        SExpr::PrefixExpr { right, .. } => {
            lemma_plain_expression(rt, st, env, *right, fuel);
        },
        SExpr::InfixExpr { left, right, .. } => {
            lemma_plain_expression(rt, st, env, *left, fuel);
            lemma_plain_expression(rt, st, env, *right, fuel);
        },
        SExpr::IfLiteral { condition, consequence, alternative, .. } => {
            lemma_plain_expression(rt, st, env, *condition, fuel);
            lemma_plain_block(rt, st, env, consequence, fuel);
            match alternative {
                Some(b) => lemma_plain_block(rt, st, env, b, fuel),
                None => {},
            }
        },
        SExpr::FunctionLiteral { body, .. } => {
            lemma_plain_block(rt, st, env, body, fuel);
        },
        SExpr::CallExpr { function, arguments, .. } => {
            lemma_plain_expression(rt, st, env, *function, fuel);
            lemma_plain_expressions(rt, st, env, arguments, fuel);
            match *function {
                SExpr::Identifier(id) => {
                    assert(!(lookup(rt.envs, env as int, id.value) matches Some(SObject::Macro { .. })));
                },
                _ => {},
            }
            assert(!candidate(Mode::Expand, rt, st, env, e));
        },
        SExpr::ArrayLiteral { elements, .. } => {
            lemma_plain_expressions(rt, st, env, elements, fuel);
        },
        SExpr::IndexExpr { left, index, .. } => {
            lemma_plain_expression(rt, st, env, *left, fuel);
            lemma_plain_expression(rt, st, env, *index, fuel);
        },
        SExpr::HashLiteral { pairs, .. } => {
            lemma_plain_pairs(rt, st, env, pairs, fuel);
        },
        _ => {},
    }
}

proof fn lemma_plain_expressions(rt: SRuntime, st: Status, env: nat, s: Seq<SExpr>, fuel: nat)
    requires
        no_macros(rt, env),
    ensures
        rw_exprs(Mode::Expand, rt, st, env, s, fuel) == (rt, st, s),
    decreases s,
{
    if s.len() > 0 {
        lemma_plain_expressions(rt, st, env, s.drop_last(), fuel);
        lemma_plain_expression(rt, st, env, s.last(), fuel);
        assert(s.drop_last().push(s.last()) =~= s);
    }
}

proof fn lemma_plain_pairs(rt: SRuntime, st: Status, env: nat, s: Seq<SPair>, fuel: nat)
    requires
        no_macros(rt, env),
    ensures
        rw_pairs(Mode::Expand, rt, st, env, s, fuel) == (rt, st, s),
    decreases s,
{
    if s.len() > 0 {
        lemma_plain_pairs(rt, st, env, s.drop_last(), fuel);
        lemma_plain_expression(rt, st, env, s.last().key, fuel);
        lemma_plain_expression(rt, st, env, s.last().value, fuel);
        assert(s.drop_last().push(SPair { key: s.last().key, value: s.last().value }) =~= s);
    }
}

proof fn lemma_plain_statement(rt: SRuntime, st: Status, env: nat, s: SStmt, fuel: nat)
    requires
        no_macros(rt, env),
    ensures
        rw_stmt(Mode::Expand, rt, st, env, s, fuel) == (rt, st, s),
    decreases s,
{
    match s {
        SStmt::Let { value, .. } => lemma_plain_expression(rt, st, env, value, fuel),
        SStmt::Return { value, .. } => lemma_plain_expression(rt, st, env, value, fuel),
        SStmt::Expression { expression, .. } => lemma_plain_expression(rt, st, env, expression, fuel),
        SStmt::Block(b) => lemma_plain_block(rt, st, env, b, fuel),
    }
}

proof fn lemma_plain_statements(rt: SRuntime, st: Status, env: nat, s: Seq<SStmt>, fuel: nat)
    requires
        no_macros(rt, env),
    ensures
        rw_stmts(Mode::Expand, rt, st, env, s, fuel) == (rt, st, s),
    decreases s,
{
    if s.len() > 0 {
        lemma_plain_statements(rt, st, env, s.drop_last(), fuel);
        lemma_plain_statement(rt, st, env, s.last(), fuel);
        assert(s.drop_last().push(s.last()) =~= s);
    }
}

proof fn lemma_plain_block(rt: SRuntime, st: Status, env: nat, b: SBlock, fuel: nat)
    requires
        no_macros(rt, env),
    ensures
        rw_block(Mode::Expand, rt, st, env, b, fuel) == (rt, st, b),
    decreases b,
{
    lemma_plain_statements(rt, st, env, b.statements, fuel);
}

/// Where no name has a macro for its value, expansion leaves the program and the runtime as
/// they were, and succeeds.
pub proof fn law_expansion_without_macros(rt: SRuntime, env: nat, p: Seq<SStmt>)
    requires
        no_macros(rt, env),
    ensures
        expand_s(rt, env, p) == (rt, Status::Going, p),
{
    lemma_plain_statements(rt, Status::Going, env, p, STEPS as nat);
}

} // verus!
