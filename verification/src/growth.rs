use vstd::prelude::*;

use crate::ast::{expr_token, SBlock, SExpr, SIdent, SPair, SStmt};
use crate::builtins::builtin_printed;
use crate::environment::{assign, extend, SRuntime};
use crate::evaluator::{
    bind_params, callee, candidate, ev_block, ev_call, ev_expr, ev_exprs, ev_pairs, ev_program, ev_stmt, ev_stmts,
    macro_scope, min_len, rw_block, rw_expand, rw_expr, rw_exprs, rw_pairs, rw_stmt, rw_stmts, rw_unquote,
    Mode, Status,
};
use crate::macro_expansion::{define_s, expand_s};
use crate::object::SObject;

verus! {

// ---------------------------------------------------------------------------
// What running keeps: scopes are never removed, and printed lines stay printed
// ---------------------------------------------------------------------------

/// Whether runtime `b` holds every scope of `a`, and the lines `a` printed, first.
pub open spec fn grows(a: SRuntime, b: SRuntime) -> bool {
    &&& a.envs.len() <= b.envs.len()
    &&& a.output.len() <= b.output.len()
    &&& b.output.subrange(0, a.output.len() as int) == a.output
}

proof fn lemma_trans(a: SRuntime, b: SRuntime, c: SRuntime)
    requires
        grows(a, b),
        grows(b, c),
    ensures
        grows(a, c),
{
    assert(c.output.subrange(0, a.output.len() as int) =~= c.output.subrange(0, b.output.len() as int).subrange(
        0,
        a.output.len() as int,
    ));
}

proof fn lemma_same(a: SRuntime)
    ensures
        grows(a, a),
{
    assert(a.output.subrange(0, a.output.len() as int) =~= a.output);
}

proof fn lemma_assign(rt: SRuntime, i: int, name: Seq<char>, v: SObject)
    ensures
        grows(rt, assign(rt, i, name, v)),
{
    lemma_same(rt);
}

proof fn lemma_extend(rt: SRuntime, outer: Option<nat>)
    ensures
        grows(rt, extend(rt, outer)),
{
    lemma_same(rt);
}

proof fn lemma_bind(rt: SRuntime, i: nat, ps: Seq<SIdent>, args: Seq<SObject>, k: nat)
    ensures
        grows(rt, bind_params(rt, i, ps, args, k)),
    decreases k,
{
    if k == 0 {
        lemma_same(rt);
    } else {
        let r1 = bind_params(rt, i, ps, args, (k - 1) as nat);
        lemma_bind(rt, i, ps, args, (k - 1) as nat);
        lemma_assign(r1, i as int, ps[k - 1].value, args[k - 1]);
        lemma_trans(rt, r1, bind_params(rt, i, ps, args, k));
    }
}

proof fn lemma_printing(rt: SRuntime, lines: Seq<Seq<char>>)
    ensures
        grows(rt, SRuntime { envs: rt.envs, output: rt.output + lines }),
{
    assert((rt.output + lines).subrange(0, rt.output.len() as int) =~= rt.output);
}

proof fn lemma_scope(rt: SRuntime, denv: nat, parameters: Seq<SIdent>, arguments: Seq<SExpr>)
    ensures
        grows(rt, macro_scope(rt, denv, parameters, arguments)),
{
    let e = extend(rt, Some(denv));
    lemma_extend(rt, Some(denv));
    lemma_bind(
        e,
        rt.envs.len(),
        parameters,
        arguments.map_values(|a: SExpr| SObject::Quote(a)),
        parameters.len(),
    );
    lemma_trans(rt, e, macro_scope(rt, denv, parameters, arguments));
}

proof fn lemma_expr(rt: SRuntime, env: nat, e: SExpr, fuel: nat)
    ensures
        grows(rt, ev_expr(rt, env, e, fuel).0),
    decreases fuel, e, 2int,
{
    lemma_same(rt);
    match e {
        SExpr::PrefixExpr { right, .. } => {
            lemma_expr(rt, env, *right, fuel);
        },
        SExpr::InfixExpr { left, right, .. } => {
            let rt1 = ev_expr(rt, env, *left, fuel).0;
            lemma_expr(rt, env, *left, fuel);
            lemma_expr(rt1, env, *right, fuel);
            lemma_trans(rt, rt1, ev_expr(rt1, env, *right, fuel).0);
        },
        SExpr::IfLiteral { condition, consequence, alternative, .. } => {
            let rt1 = ev_expr(rt, env, *condition, fuel).0;
            lemma_expr(rt, env, *condition, fuel);
            lemma_block(rt1, env, consequence, fuel);
            lemma_trans(rt, rt1, ev_block(rt1, env, consequence, fuel).0);
            match alternative {
                Some(b) => {
                    lemma_block(rt1, env, b, fuel);
                    lemma_trans(rt, rt1, ev_block(rt1, env, b, fuel).0);
                },
                None => {},
            }
        },
        SExpr::CallExpr { .. } => {
            lemma_call(rt, env, e, fuel);
        },
        SExpr::ArrayLiteral { elements, .. } => {
            lemma_exprs(rt, env, elements, fuel);
        },
        SExpr::IndexExpr { left, index, .. } => {
            let rt1 = ev_expr(rt, env, *left, fuel).0;
            lemma_expr(rt, env, *left, fuel);
            lemma_expr(rt1, env, *index, fuel);
            lemma_trans(rt, rt1, ev_expr(rt1, env, *index, fuel).0);
        },
        SExpr::HashLiteral { pairs, .. } => {
            lemma_pairs(rt, env, pairs, fuel);
        },
        _ => {},
    }
}

proof fn lemma_call(rt: SRuntime, env: nat, e: SExpr, fuel: nat)
    ensures
        grows(rt, ev_call(rt, env, e, fuel).0),
    decreases fuel, e, 1int,
{
    lemma_same(rt);
    match e {
        SExpr::CallExpr { function, arguments, .. } => {
            if expr_token(*function).text == "quote"@ {
                if arguments.len() == 1 {
                    lemma_rw_expr(Mode::Unquote, rt, Status::Going, env, arguments[0], fuel);
                }
            } else {
                let (rt1, fr) = ev_expr(rt, env, *function, fuel);
                lemma_expr(rt, env, *function, fuel);
                let (rt2, ar) = ev_exprs(rt1, env, arguments, fuel);
                lemma_exprs(rt1, env, arguments, fuel);
                lemma_trans(rt, rt1, rt2);
                match (fr, ar) {
                    (Ok(SObject::Function { parameters, body, env: fenv }), Ok(args)) => {
                        if fuel > 0 {
                            let n = rt2.envs.len();
                            let x = extend(rt2, Some(fenv));
                            let rt3 = bind_params(x, n, parameters, args, min_len(parameters.len(), args.len()));
                            lemma_extend(rt2, Some(fenv));
                            lemma_bind(x, n, parameters, args, min_len(parameters.len(), args.len()));
                            lemma_block(rt3, n, body, (fuel - 1) as nat);
                            lemma_trans(rt2, x, rt3);
                            lemma_trans(rt2, rt3, ev_block(rt3, n, body, (fuel - 1) as nat).0);
                            lemma_trans(rt, rt2, ev_block(rt3, n, body, (fuel - 1) as nat).0);
                        }
                    },
                    (Ok(SObject::Builtin(b)), Ok(args)) => {
                        lemma_printing(rt2, builtin_printed(b, args));
                        lemma_trans(rt, rt2, SRuntime { envs: rt2.envs, output: rt2.output + builtin_printed(b, args) });
                    },
                    _ => {},
                }
            }
        },
        _ => {},
    }
}

proof fn lemma_exprs(rt: SRuntime, env: nat, s: Seq<SExpr>, fuel: nat)
    ensures
        grows(rt, ev_exprs(rt, env, s, fuel).0),
    decreases fuel, s, 2int,
{
    lemma_same(rt);
    if s.len() > 0 {
        let rt1 = ev_exprs(rt, env, s.drop_last(), fuel).0;
        lemma_exprs(rt, env, s.drop_last(), fuel);
        lemma_expr(rt1, env, s.last(), fuel);
        lemma_trans(rt, rt1, ev_expr(rt1, env, s.last(), fuel).0);
    }
}

proof fn lemma_pairs(rt: SRuntime, env: nat, s: Seq<SPair>, fuel: nat)
    ensures
        grows(rt, ev_pairs(rt, env, s, fuel).0),
    decreases fuel, s, 2int,
{
    lemma_same(rt);
    if s.len() > 0 {
        let rt1 = ev_pairs(rt, env, s.drop_last(), fuel).0;
        lemma_pairs(rt, env, s.drop_last(), fuel);
        let rt2 = ev_expr(rt1, env, s.last().key, fuel).0;
        lemma_expr(rt1, env, s.last().key, fuel);
        lemma_expr(rt2, env, s.last().value, fuel);
        lemma_trans(rt, rt1, rt2);
        lemma_trans(rt, rt2, ev_expr(rt2, env, s.last().value, fuel).0);
    }
}

proof fn lemma_stmt(rt: SRuntime, env: nat, s: SStmt, fuel: nat)
    ensures
        grows(rt, ev_stmt(rt, env, s, fuel).0),
    decreases fuel, s, 2int,
{
    match s {
        SStmt::Expression { expression, .. } => lemma_expr(rt, env, expression, fuel),
        SStmt::Block(b) => lemma_block(rt, env, b, fuel),
        SStmt::Return { value, .. } => lemma_expr(rt, env, value, fuel),
        SStmt::Let { name, value, .. } => {
            let (rt1, r) = ev_expr(rt, env, value, fuel);
            lemma_expr(rt, env, value, fuel);
            if let Ok(v) = r {
                lemma_assign(rt1, env as int, name.value, v);
                lemma_trans(rt, rt1, assign(rt1, env as int, name.value, v));
            }
        },
    }
}

proof fn lemma_stmts(rt: SRuntime, env: nat, s: Seq<SStmt>, fuel: nat)
    ensures
        grows(rt, ev_stmts(rt, env, s, fuel).0),
    decreases fuel, s, 2int,
{
    lemma_same(rt);
    if s.len() > 0 {
        let rt1 = ev_stmts(rt, env, s.drop_last(), fuel).0;
        lemma_stmts(rt, env, s.drop_last(), fuel);
        lemma_stmt(rt1, env, s.last(), fuel);
        lemma_trans(rt, rt1, ev_stmt(rt1, env, s.last(), fuel).0);
    }
}

proof fn lemma_block(rt: SRuntime, env: nat, b: SBlock, fuel: nat)
    ensures
        grows(rt, ev_block(rt, env, b, fuel).0),
    decreases fuel, b, 2int,
{
    lemma_stmts(rt, env, b.statements, fuel);
}

proof fn lemma_unquote(rt: SRuntime, env: nat, e: SExpr, fuel: nat)
    ensures
        grows(rt, rw_unquote(rt, env, e, fuel).0),
    decreases fuel, e, 1int,
{
    lemma_same(rt);
    match e {
        SExpr::CallExpr { arguments, .. } => {
            if arguments.len() == 1 && fuel > 0 {
                lemma_expr(rt, env, arguments[0], (fuel - 1) as nat);
            }
        },
        _ => {},
    }
}

proof fn lemma_expand(rt: SRuntime, env: nat, e: SExpr, fuel: nat)
    ensures
        grows(rt, rw_expand(rt, env, e, fuel).0),
    decreases fuel, e, 1int,
{
    lemma_same(rt);
    match callee(rt, env, e) {
        Some(SObject::Macro { parameters, body, env: denv }) => {
            if fuel > 0 {
                let args = match e {
                    SExpr::CallExpr { arguments, .. } => arguments,
                    _ => Seq::empty(),
                };
                let ms = macro_scope(rt, denv, parameters, args);
                lemma_scope(rt, denv, parameters, args);
                lemma_block(ms, rt.envs.len(), body, (fuel - 1) as nat);
                lemma_trans(rt, ms, ev_block(ms, rt.envs.len(), body, (fuel - 1) as nat).0);
            }
        },
        _ => {},
    }
}

proof fn lemma_rw_expr(mode: Mode, rt: SRuntime, st: Status, env: nat, e: SExpr, fuel: nat)
    ensures
        grows(rt, rw_expr(mode, rt, st, env, e, fuel).0),
    decreases fuel, e, 2int,
{
    lemma_same(rt);
    match e {
        SExpr::PrefixExpr { right, .. } => {
            lemma_rw_expr(mode, rt, st, env, *right, fuel);
        },
        SExpr::InfixExpr { left, right, .. } => {
            let (rt1, st1, l) = rw_expr(mode, rt, st, env, *left, fuel);
            lemma_rw_expr(mode, rt, st, env, *left, fuel);
            lemma_rw_expr(mode, rt1, st1, env, *right, fuel);
            lemma_trans(rt, rt1, rw_expr(mode, rt1, st1, env, *right, fuel).0);
        },
        SExpr::IfLiteral { condition, consequence, alternative, .. } => {
            let (rt1, st1, c) = rw_expr(mode, rt, st, env, *condition, fuel);
            lemma_rw_expr(mode, rt, st, env, *condition, fuel);
            let (rt2, st2, cons) = rw_block(mode, rt1, st1, env, consequence, fuel);
            lemma_rw_block(mode, rt1, st1, env, consequence, fuel);
            lemma_trans(rt, rt1, rt2);
            match alternative {
                Some(b) => {
                    lemma_rw_block(mode, rt2, st2, env, b, fuel);
                    lemma_trans(rt, rt2, rw_block(mode, rt2, st2, env, b, fuel).0);
                },
                None => {},
            }
        },
        SExpr::FunctionLiteral { body, .. } => {
            lemma_rw_block(mode, rt, st, env, body, fuel);
        },
        SExpr::CallExpr { token, function, arguments } => {
            let (rt1, st1, f) = rw_expr(mode, rt, st, env, *function, fuel);
            lemma_rw_expr(mode, rt, st, env, *function, fuel);
            let (rt2, st2, args) = rw_exprs(mode, rt1, st1, env, arguments, fuel);
            lemma_rw_exprs(mode, rt1, st1, env, arguments, fuel);
            lemma_trans(rt, rt1, rt2);
            let call = SExpr::CallExpr { token, function: Box::new(f), arguments: args };
            if candidate(mode, rt2, st2, env, call) && fuel > 0 {
                match mode {
                    Mode::Unquote => {
                        lemma_unquote(rt2, env, call, (fuel - 1) as nat);
                        lemma_trans(rt, rt2, rw_unquote(rt2, env, call, (fuel - 1) as nat).0);
                    },
                    Mode::Expand => {
                        lemma_expand(rt2, env, call, (fuel - 1) as nat);
                        lemma_trans(rt, rt2, rw_expand(rt2, env, call, (fuel - 1) as nat).0);
                    },
                }
            }
        },
        SExpr::ArrayLiteral { elements, .. } => {
            lemma_rw_exprs(mode, rt, st, env, elements, fuel);
        },
        SExpr::IndexExpr { left, index, .. } => {
            let (rt1, st1, l) = rw_expr(mode, rt, st, env, *left, fuel);
            lemma_rw_expr(mode, rt, st, env, *left, fuel);
            lemma_rw_expr(mode, rt1, st1, env, *index, fuel);
            lemma_trans(rt, rt1, rw_expr(mode, rt1, st1, env, *index, fuel).0);
        },
        SExpr::HashLiteral { pairs, .. } => {
            lemma_rw_pairs(mode, rt, st, env, pairs, fuel);
        },
        _ => {},
    }
}

proof fn lemma_rw_exprs(mode: Mode, rt: SRuntime, st: Status, env: nat, s: Seq<SExpr>, fuel: nat)
    ensures
        grows(rt, rw_exprs(mode, rt, st, env, s, fuel).0),
    decreases fuel, s, 2int,
{
    lemma_same(rt);
    if s.len() > 0 {
        let (rt1, st1, init) = rw_exprs(mode, rt, st, env, s.drop_last(), fuel);
        lemma_rw_exprs(mode, rt, st, env, s.drop_last(), fuel);
        lemma_rw_expr(mode, rt1, st1, env, s.last(), fuel);
        lemma_trans(rt, rt1, rw_expr(mode, rt1, st1, env, s.last(), fuel).0);
    }
}

proof fn lemma_rw_pairs(mode: Mode, rt: SRuntime, st: Status, env: nat, s: Seq<SPair>, fuel: nat)
    ensures
        grows(rt, rw_pairs(mode, rt, st, env, s, fuel).0),
    decreases fuel, s, 2int,
{
    lemma_same(rt);
    if s.len() > 0 {
        let (rt1, st1, init) = rw_pairs(mode, rt, st, env, s.drop_last(), fuel);
        lemma_rw_pairs(mode, rt, st, env, s.drop_last(), fuel);
        let (rt2, st2, k) = rw_expr(mode, rt1, st1, env, s.last().key, fuel);
        lemma_rw_expr(mode, rt1, st1, env, s.last().key, fuel);
        lemma_rw_expr(mode, rt2, st2, env, s.last().value, fuel);
        lemma_trans(rt, rt1, rt2);
        lemma_trans(rt, rt2, rw_expr(mode, rt2, st2, env, s.last().value, fuel).0);
    }
}

proof fn lemma_rw_stmt(mode: Mode, rt: SRuntime, st: Status, env: nat, s: SStmt, fuel: nat)
    ensures
        grows(rt, rw_stmt(mode, rt, st, env, s, fuel).0),
    decreases fuel, s, 2int,
{
    match s {
        SStmt::Let { value, .. } => lemma_rw_expr(mode, rt, st, env, value, fuel),
        SStmt::Return { value, .. } => lemma_rw_expr(mode, rt, st, env, value, fuel),
        SStmt::Expression { expression, .. } => lemma_rw_expr(mode, rt, st, env, expression, fuel),
        SStmt::Block(b) => lemma_rw_block(mode, rt, st, env, b, fuel),
    }
}

proof fn lemma_rw_stmts(mode: Mode, rt: SRuntime, st: Status, env: nat, s: Seq<SStmt>, fuel: nat)
    ensures
        grows(rt, rw_stmts(mode, rt, st, env, s, fuel).0),
    decreases fuel, s, 2int,
{
    lemma_same(rt);
    if s.len() > 0 {
        let (rt1, st1, init) = rw_stmts(mode, rt, st, env, s.drop_last(), fuel);
        lemma_rw_stmts(mode, rt, st, env, s.drop_last(), fuel);
        lemma_rw_stmt(mode, rt1, st1, env, s.last(), fuel);
        lemma_trans(rt, rt1, rw_stmt(mode, rt1, st1, env, s.last(), fuel).0);
    }
}

proof fn lemma_rw_block(mode: Mode, rt: SRuntime, st: Status, env: nat, b: SBlock, fuel: nat)
    ensures
        grows(rt, rw_block(mode, rt, st, env, b, fuel).0),
    decreases fuel, b, 2int,
{
    lemma_rw_stmts(mode, rt, st, env, b.statements, fuel);
}

/// Running a program never removes a scope (every handle stays good) and never takes back a
/// printed line: the runtime after it holds the scopes and the output before it, first.
pub proof fn law_running_only_adds(rt: SRuntime, env: nat, p: Seq<SStmt>, fuel: nat)
    ensures
        grows(rt, ev_program(rt, env, p, fuel).0),
{
    lemma_stmts(rt, env, p, fuel);
}

/// Expanding macros never removes a scope nor takes back a printed line.
pub proof fn law_expansion_only_adds(rt: SRuntime, env: nat, p: Seq<SStmt>)
    ensures
        grows(rt, expand_s(rt, env, p).0),
{
    lemma_rw_stmts(Mode::Expand, rt, Status::Going, env, p, crate::evaluator::STEPS as nat);
}

/// Defining macros never removes a scope nor takes back a printed line.
pub proof fn law_definitions_only_add(rt: SRuntime, env: nat, p: Seq<SStmt>)
    ensures
        grows(rt, define_s(rt, env, p).0),
    decreases p.len(),
{
    lemma_same(rt);
    if p.len() > 0 {
        let rt1 = define_s(rt, env, p.drop_last()).0;
        law_definitions_only_add(rt, env, p.drop_last());
        match crate::macro_expansion::macro_def(p.last()) {
            Some((n, ps, b)) => {
                lemma_assign(rt1, env as int, n, SObject::Macro { parameters: ps, body: b, env });
                lemma_trans(rt, rt1, define_s(rt, env, p).0);
            },
            None => {},
        }
    }
}

} // verus!
