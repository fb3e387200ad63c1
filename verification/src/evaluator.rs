use vstd::prelude::*;

use crate::ast::{
    expr_token, exprs_v, expr_v, idents_v, lemma_exprs_first, lemma_exprs_v, pairs_v,
    stmt_v, stmts_v, BlockStatement, Expression, HashPair, Identifier, Program, SBlock, SExpr, SIdent, SPair,
    SStmt, Statement,
};
use crate::builtins::{apply_builtin, arity_error, arity_text, arity_msg, builtin_named, builtin_printed, builtin_result, lookup_builtin};
use crate::display::bool_text;
use crate::environment::{assign, extend, lookup, opt_v, EnvironmentRef, Runtime, SRuntime};
use crate::object::{
    hash_get, hash_key_of, hash_put, lemma_objs_v, obj_type, obj_v, objs_v, type_text, unusable_key_msg,
    HashPairs, Object, ObjectType, SEntry, SObject,
};
use crate::text::{i64_text, int_text, owned, push_str, same_text};
use crate::token::{SToken, Token, TokenType};

verus! {

// ---------------------------------------------------------------------------
// What a program means
// ---------------------------------------------------------------------------

/// Why an evaluation stopped without a value.
#[derive(Clone, Copy, Debug, PartialEq, Eq, Structural)]
pub enum Fault {
    /// The evaluation took more steps than it was given.
    Exhausted,
    /// An integer operation left the range of `i64`.
    Overflow,
    /// An integer was divided by zero.
    DivisionByZero,
}

/// How many nested calls an evaluation may make.
pub const STEPS: u64 = 0xffff_ffff_ffff_ffffu64;

/// Whether a value counts as true in a condition.
pub open spec fn truthy(o: SObject) -> bool {
    match o {
        SObject::Boolean(b) => b,
        SObject::Null => false,
        _ => true,
    }
}

/// The value inside a returned value; any other value as it is.
pub open spec fn unwrap_return(o: SObject) -> SObject {
    match o {
        SObject::ReturnValue(v) => *v,
        _ => o,
    }
}

/// The text `prefix`, the type of `l`, the operator and the type of `r`, spaced.
pub open spec fn binary_msg(prefix: Seq<char>, l: SObject, op: Seq<char>, r: SObject) -> Seq<char> {
    prefix + type_text(obj_type(l)) + " "@ + op + " "@ + type_text(obj_type(r))
}

/// An `i64`, or `Overflow` where the exact result leaves its range.
pub open spec fn checked(v: int) -> Result<SObject, Fault> {
    if i64::MIN <= v <= i64::MAX {
        Ok(SObject::Integer(v as i64))
    } else {
        Err(Fault::Overflow)
    }
}

/// Integer division rounded toward zero.
pub open spec fn trunc_div(x: int, d: int) -> int {
    if x == 0 {
        0
    } else if x > 0 && d > 0 {
        x / d
    } else if x < 0 && d < 0 {
        (x * -1) / (d * -1)
    } else if x < 0 {
        ((x * -1) / d) * -1
    } else {
        (x / (d * -1)) * -1
    }
}

/// A prefix operator applied to a value.
pub open spec fn prefix_op(op: Seq<char>, r: SObject) -> Result<SObject, Fault> {
    if op == "!"@ {
        Ok(
            SObject::Boolean(
                match r {
                    SObject::Boolean(b) => !b,
                    SObject::Null => true,
                    _ => false,
                },
            ),
        )
    } else if op == "-"@ {
        match r {
            SObject::Integer(i) => checked(-(i as int)),
            _ => Ok(SObject::Error("unknown operator: -"@ + type_text(obj_type(r)))),
        }
    } else {
        Ok(SObject::Error("unknown operator: "@ + op + type_text(obj_type(r))))
    }
}

/// An infix operator applied to two values.
pub open spec fn infix_op(op: Seq<char>, l: SObject, r: SObject) -> Result<SObject, Fault> {
    match (l, r) {
        (SObject::Integer(a), SObject::Integer(b)) => if op == "+"@ {
            checked(a + b)
        } else if op == "-"@ {
            checked(a - b)
        } else if op == "*"@ {
            checked(a * b)
        } else if op == "/"@ {
            if b == 0 {
                Err(Fault::DivisionByZero)
            } else {
                checked(trunc_div(a as int, b as int))
            }
        } else if op == "<"@ {
            Ok(SObject::Boolean(a < b))
        } else if op == ">"@ {
            Ok(SObject::Boolean(a > b))
        } else if op == "=="@ {
            Ok(SObject::Boolean(a == b))
        } else if op == "!="@ {
            Ok(SObject::Boolean(a != b))
        } else {
            Ok(SObject::Error(binary_msg("unknown operator: "@, l, op, r)))
        },
        (SObject::Boolean(a), SObject::Boolean(b)) => if op == "=="@ {
            Ok(SObject::Boolean(a == b))
        } else if op == "!="@ {
            Ok(SObject::Boolean(a != b))
        } else {
            Ok(SObject::Error(binary_msg("unknown operator: "@, l, op, r)))
        },
        (SObject::String(a), SObject::String(b)) => if op == "+"@ {
            Ok(SObject::String(a + b))
        } else {
            Ok(SObject::Error(binary_msg("unknown operator: "@, l, op, r)))
        },
        _ => Ok(SObject::Error(binary_msg("type mismatch: "@, l, op, r))),
    }
}

/// The element of an array at an index, or the value a hash stores under a key.
pub open spec fn index_op(l: SObject, i: SObject) -> SObject {
    match (l, i) {
        (SObject::Array(v), SObject::Integer(k)) => if k < 0 || k >= v.len() {
            SObject::Null
        } else {
            v[k as int]
        },
        (SObject::Hash(es), _) => match hash_key_of(i) {
            Ok(hk) => match hash_get(es, hk) {
                Some(kv) => kv.1,
                None => SObject::Null,
            },
            Err(_) => SObject::Error(unusable_key_msg(obj_type(i))),
        },
        _ => SObject::Error("index operator not supported: "@ + type_text(obj_type(l))),
    }
}

/// The value of a name in scope `env`: its binding, else the provided function of that name.
pub open spec fn ident_value(rt: SRuntime, env: nat, name: Seq<char>) -> SObject {
    match lookup(rt.envs, env as int, name) {
        Some(v) => v,
        None => match builtin_named(name) {
            Some(b) => SObject::Builtin(b),
            None => SObject::Error("identifier not found: "@ + name),
        },
    }
}

/// The runtime after the first `k` parameters are bound to the first `k` arguments in scope `i`.
pub open spec fn bind_params(rt: SRuntime, i: nat, ps: Seq<SIdent>, args: Seq<SObject>, k: nat) -> SRuntime
    decreases k,
{
    if k == 0 {
        rt
    } else {
        assign(bind_params(rt, i, ps, args, (k - 1) as nat), i as int, ps[k - 1].value, args[k - 1])
    }
}

/// The smaller of two lengths.
pub open spec fn min_len(a: nat, b: nat) -> nat {
    if a <= b {
        a
    } else {
        b
    }
}

/// The expression that stands for a value inside a quote, for the values that have one.
pub open spec fn to_ast(o: SObject) -> Option<SExpr> {
    match o {
        SObject::Integer(v) => Some(
            SExpr::IntegerLiteral { token: SToken { kind: TokenType::INT, text: int_text(v as int) }, value: v },
        ),
        SObject::Boolean(b) => Some(
            SExpr::BooleanLiteral {
                token: SToken { kind: if b { TokenType::TRUE } else { TokenType::FALSE }, text: bool_text(b) },
                value: b,
            },
        ),
        SObject::Quote(e) => Some(e),
        _ => None,
    }
}

/// What a rewrite of the tree replaces: `unquote` calls inside a quote, or macro calls.
#[derive(Clone, Copy, Debug, PartialEq, Eq, Structural)]
pub enum Mode {
    Unquote,
    Expand,
}

/// Where a rewrite of the tree stands: still going, stopped on an error, or stopped on a fault.
pub enum Status {
    Going,
    Failed(Seq<char>),
    Faulted(Fault),
}

/// Whether a call is rewritten: an `unquote` call with one argument, or a call of a name
/// bound to a macro; nothing is rewritten once the rewrite has stopped.
pub open spec fn candidate(mode: Mode, rt: SRuntime, st: Status, env: nat, e: SExpr) -> bool {
    &&& st is Going
    &&& match e {
        SExpr::CallExpr { function, arguments, .. } => match *function {
            SExpr::Identifier(id) => match mode {
                Mode::Unquote => id.value == "unquote"@ && arguments.len() == 1,
                Mode::Expand => callee(rt, env, e) matches Some(SObject::Macro { .. }),
            },
            _ => false,
        },
        _ => false,
    }
}

/// The result of a macro body: the quoted expression, or why there is none.
pub open spec fn macro_outcome(v: SObject) -> Result<SExpr, Seq<char>> {
    match unwrap_return(v) {
        SObject::Quote(x) => Ok(x),
        SObject::Error(m) => Err(m),
        o => Err("macro must return QUOTE, got "@ + type_text(obj_type(o))),
    }
}

/// The outcome of an `unquote` call `e`, given the outcome of its argument: the expression
/// that stands for the value, where the value has one, else the call unchanged.
pub open spec fn unquoted(e: SExpr, r: Result<SObject, Fault>) -> (Status, SExpr) {
    match r {
        Err(f) => (Status::Faulted(f), e),
        Ok(v) => match to_ast(v) {
            Some(x) => (Status::Going, x),
            None => (Status::Going, e),
        },
    }
}

/// The outcome of a macro call `e`, given the outcome of the macro's body: the quoted
/// expression, or why there is none.
pub open spec fn expanded(e: SExpr, r: Result<SObject, Fault>) -> (Status, SExpr) {
    match r {
        Err(f) => (Status::Faulted(f), e),
        Ok(v) => match macro_outcome(v) {
            Ok(x) => (Status::Going, x),
            Err(m) => (Status::Failed(m), e),
        },
    }
}

/// An `unquote` call replaced by the expression that stands for the value of its argument,
/// where that value has one.
pub open spec fn rw_unquote(rt: SRuntime, env: nat, e: SExpr, fuel: nat) -> (SRuntime, Status, SExpr)
    decreases fuel, e, 1int,
{
    match e {
        SExpr::CallExpr { arguments, .. } => if arguments.len() == 1 {
            if fuel == 0 {
                (rt, Status::Faulted(Fault::Exhausted), e)
            } else {
                let (rt1, r) = ev_expr(rt, env, arguments[0], (fuel - 1) as nat);
                (rt1, unquoted(e, r).0, unquoted(e, r).1)
            }
        } else {
            (rt, Status::Going, e)
        },
        _ => (rt, Status::Going, e),
    }
}

/// The runtime in which a macro's body runs: a new scope enclosed by the macro's own, with
/// the parameters bound to the quoted arguments.
pub open spec fn macro_scope(rt: SRuntime, denv: nat, parameters: Seq<SIdent>, arguments: Seq<SExpr>) -> SRuntime {
    bind_params(
        extend(rt, Some(denv)),
        rt.envs.len(),
        parameters,
        arguments.map_values(|a: SExpr| SObject::Quote(a)),
        parameters.len(),
    )
}

/// The value bound to the name that a call calls, where it calls a name.
pub open spec fn callee(rt: SRuntime, env: nat, e: SExpr) -> Option<SObject> {
    match e {
        SExpr::CallExpr { function, .. } => match *function {
            SExpr::Identifier(id) => lookup(rt.envs, env as int, id.value),
            _ => None,
        },
        _ => None,
    }
}

/// The arguments of a call.
pub open spec fn call_args(e: SExpr) -> Seq<SExpr> {
    match e {
        SExpr::CallExpr { arguments, .. } => arguments,
        _ => Seq::empty(),
    }
}

/// A macro call replaced by the expression that the macro's body quotes, its parameters bound
/// to the quoted arguments in a scope enclosed by the macro's own.
pub open spec fn rw_expand(rt: SRuntime, env: nat, e: SExpr, fuel: nat) -> (SRuntime, Status, SExpr)
    decreases fuel, e, 1int,
{
    match callee(rt, env, e) {
        Some(SObject::Macro { parameters, body, env: denv }) => if parameters.len() != call_args(e).len() {
            (rt, Status::Failed(arity_msg(call_args(e).len(), parameters.len())), e)
        } else if fuel == 0 {
            (rt, Status::Faulted(Fault::Exhausted), e)
        } else {
            let (rt2, r) = ev_block(
                macro_scope(rt, denv, parameters, call_args(e)),
                rt.envs.len(),
                body,
                (fuel - 1) as nat,
            );
            (rt2, expanded(e, r).0, expanded(e, r).1)
        },
        _ => (rt, Status::Going, e),
    }
}

proof fn lemma_unquote_step(rt: SRuntime, env: nat, e: SExpr, fuel: nat, rt2: SRuntime, r: Result<SObject, Fault>)
    requires
        e is CallExpr,
        e->arguments.len() == 1,
        fuel > 0,
        rt2 == ev_expr(rt, env, e->arguments[0], (fuel - 1) as nat).0,
        r == ev_expr(rt, env, e->arguments[0], (fuel - 1) as nat).1,
    ensures
        rw_unquote(rt, env, e, fuel) == (rt2, unquoted(e, r).0, unquoted(e, r).1),
{
}

proof fn lemma_unquote_exhausted(rt: SRuntime, env: nat, e: SExpr)
    requires
        e is CallExpr,
        e->arguments.len() == 1,
    ensures
        rw_unquote(rt, env, e, 0) == (rt, Status::Faulted(Fault::Exhausted), e),
{
}

proof fn lemma_unquote_skip(rt: SRuntime, env: nat, e: SExpr, fuel: nat)
    requires
        !(e is CallExpr && e->arguments.len() == 1),
    ensures
        rw_unquote(rt, env, e, fuel) == (rt, Status::Going, e),
{
}

proof fn lemma_expand_step(
    rt: SRuntime,
    env: nat,
    e: SExpr,
    fuel: nat,
    parameters: Seq<SIdent>,
    body: SBlock,
    denv: nat,
    rt2: SRuntime,
    r: Result<SObject, Fault>,
)
    requires
        callee(rt, env, e) == Some(SObject::Macro { parameters, body, env: denv }),
        parameters.len() == call_args(e).len(),
        fuel > 0,
        rt2 == ev_block(macro_scope(rt, denv, parameters, call_args(e)), rt.envs.len(), body, (fuel - 1) as nat).0,
        r == ev_block(macro_scope(rt, denv, parameters, call_args(e)), rt.envs.len(), body, (fuel - 1) as nat).1,
    ensures
        rw_expand(rt, env, e, fuel) == (rt2, expanded(e, r).0, expanded(e, r).1),
{
}

proof fn lemma_expand_stop(rt: SRuntime, env: nat, e: SExpr, fuel: nat, parameters: Seq<SIdent>, body: SBlock, denv: nat)
    requires
        callee(rt, env, e) == Some(SObject::Macro { parameters, body, env: denv }),
        parameters.len() != call_args(e).len() || fuel == 0,
    ensures
        rw_expand(rt, env, e, fuel) == if parameters.len() != call_args(e).len() {
            (rt, Status::Failed(arity_msg(call_args(e).len(), parameters.len())), e)
        } else {
            (rt, Status::Faulted(Fault::Exhausted), e)
        },
{
}

proof fn lemma_expand_skip(rt: SRuntime, env: nat, e: SExpr, fuel: nat)
    requires
        !(callee(rt, env, e) matches Some(SObject::Macro { .. })),
    ensures
        rw_expand(rt, env, e, fuel) == (rt, Status::Going, e),
{
}

/// An expression rewritten bottom-up, as `modify_expression` visits it: the children first,
/// left to right, then the call itself where `candidate` selects it.
pub open spec fn rw_expr(mode: Mode, rt: SRuntime, st: Status, env: nat, e: SExpr, fuel: nat) -> (
    SRuntime,
    Status,
    SExpr,
)
    decreases fuel, e, 2int,
{
    match e {
        SExpr::PrefixExpr { token, operator, right } => {
            let (rt1, st1, r) = rw_expr(mode, rt, st, env, *right, fuel);
            (rt1, st1, SExpr::PrefixExpr { token, operator, right: Box::new(r) })
        },
        SExpr::InfixExpr { token, left, operator, right } => {
            let (rt1, st1, l) = rw_expr(mode, rt, st, env, *left, fuel);
            let (rt2, st2, r) = rw_expr(mode, rt1, st1, env, *right, fuel);
            (rt2, st2, SExpr::InfixExpr { token, left: Box::new(l), operator, right: Box::new(r) })
        },
        SExpr::IfLiteral { token, condition, consequence, alternative } => {
            let (rt1, st1, c) = rw_expr(mode, rt, st, env, *condition, fuel);
            let (rt2, st2, cons) = rw_block(mode, rt1, st1, env, consequence, fuel);
            match alternative {
                Some(b) => {
                    let (rt3, st3, alt) = rw_block(mode, rt2, st2, env, b, fuel);
                    (
                        rt3,
                        st3,
                        SExpr::IfLiteral {
                            token,
                            condition: Box::new(c),
                            consequence: cons,
                            alternative: Some(alt),
                        },
                    )
                },
                None => (
                    rt2,
                    st2,
                    SExpr::IfLiteral { token, condition: Box::new(c), consequence: cons, alternative: None },
                ),
            }
        },
        SExpr::FunctionLiteral { token, parameters, body } => {
            let (rt1, st1, b) = rw_block(mode, rt, st, env, body, fuel);
            (rt1, st1, SExpr::FunctionLiteral { token, parameters, body: b })
        },
        SExpr::CallExpr { token, function, arguments } => {
            let (rt1, st1, f) = rw_expr(mode, rt, st, env, *function, fuel);
            let (rt2, st2, args) = rw_exprs(mode, rt1, st1, env, arguments, fuel);
            let call = SExpr::CallExpr { token, function: Box::new(f), arguments: args };
            if candidate(mode, rt2, st2, env, call) {
                if fuel == 0 {
                    (rt2, Status::Faulted(Fault::Exhausted), call)
                } else {
                    match mode {
                        Mode::Unquote => rw_unquote(rt2, env, call, (fuel - 1) as nat),
                        Mode::Expand => rw_expand(rt2, env, call, (fuel - 1) as nat),
                    }
                }
            } else {
                (rt2, st2, call)
            }
        },
        SExpr::ArrayLiteral { token, elements } => {
            let (rt1, st1, els) = rw_exprs(mode, rt, st, env, elements, fuel);
            (rt1, st1, SExpr::ArrayLiteral { token, elements: els })
        },
        SExpr::IndexExpr { token, left, index } => {
            let (rt1, st1, l) = rw_expr(mode, rt, st, env, *left, fuel);
            let (rt2, st2, i) = rw_expr(mode, rt1, st1, env, *index, fuel);
            (rt2, st2, SExpr::IndexExpr { token, left: Box::new(l), index: Box::new(i) })
        },
        SExpr::HashLiteral { token, pairs } => {
            let (rt1, st1, ps) = rw_pairs(mode, rt, st, env, pairs, fuel);
            (rt1, st1, SExpr::HashLiteral { token, pairs: ps })
        },
        _ => (rt, st, e),
    }
}

/// Expressions rewritten one after another, left to right.
pub open spec fn rw_exprs(mode: Mode, rt: SRuntime, st: Status, env: nat, s: Seq<SExpr>, fuel: nat) -> (
    SRuntime,
    Status,
    Seq<SExpr>,
)
    decreases fuel, s, 2int,
{
    if s.len() == 0 {
        (rt, st, s)
    } else {
        let (rt1, st1, init) = rw_exprs(mode, rt, st, env, s.drop_last(), fuel);
        let (rt2, st2, x) = rw_expr(mode, rt1, st1, env, s.last(), fuel);
        (rt2, st2, init.push(x))
    }
}

/// The pairs of a hash literal rewritten one after another: each key before its value.
pub open spec fn rw_pairs(mode: Mode, rt: SRuntime, st: Status, env: nat, s: Seq<SPair>, fuel: nat) -> (
    SRuntime,
    Status,
    Seq<SPair>,
)
    decreases fuel, s, 2int,
{
    if s.len() == 0 {
        (rt, st, s)
    } else {
        let (rt1, st1, init) = rw_pairs(mode, rt, st, env, s.drop_last(), fuel);
        let (rt2, st2, k) = rw_expr(mode, rt1, st1, env, s.last().key, fuel);
        let (rt3, st3, v) = rw_expr(mode, rt2, st2, env, s.last().value, fuel);
        (rt3, st3, init.push(SPair { key: k, value: v }))
    }
}

/// A statement with the expressions in it rewritten.
pub open spec fn rw_stmt(mode: Mode, rt: SRuntime, st: Status, env: nat, s: SStmt, fuel: nat) -> (
    SRuntime,
    Status,
    SStmt,
)
    decreases fuel, s, 2int,
{
    match s {
        SStmt::Let { token, name, value } => {
            let (rt1, st1, v) = rw_expr(mode, rt, st, env, value, fuel);
            (rt1, st1, SStmt::Let { token, name, value: v })
        },
        SStmt::Return { token, value } => {
            let (rt1, st1, v) = rw_expr(mode, rt, st, env, value, fuel);
            (rt1, st1, SStmt::Return { token, value: v })
        },
        SStmt::Expression { token, expression } => {
            let (rt1, st1, v) = rw_expr(mode, rt, st, env, expression, fuel);
            (rt1, st1, SStmt::Expression { token, expression: v })
        },
        SStmt::Block(b) => {
            let (rt1, st1, b2) = rw_block(mode, rt, st, env, b, fuel);
            (rt1, st1, SStmt::Block(b2))
        },
    }
}

/// Statements rewritten one after another.
pub open spec fn rw_stmts(mode: Mode, rt: SRuntime, st: Status, env: nat, s: Seq<SStmt>, fuel: nat) -> (
    SRuntime,
    Status,
    Seq<SStmt>,
)
    decreases fuel, s, 2int,
{
    if s.len() == 0 {
        (rt, st, s)
    } else {
        let (rt1, st1, init) = rw_stmts(mode, rt, st, env, s.drop_last(), fuel);
        let (rt2, st2, x) = rw_stmt(mode, rt1, st1, env, s.last(), fuel);
        (rt2, st2, init.push(x))
    }
}

/// A block with the expressions in it rewritten.
pub open spec fn rw_block(mode: Mode, rt: SRuntime, st: Status, env: nat, b: SBlock, fuel: nat) -> (
    SRuntime,
    Status,
    SBlock,
)
    decreases fuel, b, 2int,
{
    let (rt1, st1, s) = rw_stmts(mode, rt, st, env, b.statements, fuel);
    (rt1, st1, SBlock { token: b.token, statements: s })
}

/// A call evaluated in scope `env`: `quote`, or a function applied to its arguments.
pub open spec fn ev_call(rt: SRuntime, env: nat, e: SExpr, fuel: nat) -> (SRuntime, Result<SObject, Fault>)
    decreases fuel, e, 1int,
{
    match e {
        SExpr::CallExpr { function, arguments, .. } => if crate::ast::expr_token(*function).text
            == "quote"@ {
            if arguments.len() != 1 {
                (rt, Ok(SObject::Error(arity_msg(arguments.len(), 1))))
            } else {
                let (rt1, st, x) = rw_expr(Mode::Unquote, rt, Status::Going, env, arguments[0], fuel);
                match st {
                    Status::Faulted(f) => (rt1, Err(f)),
                    _ => (rt1, Ok(SObject::Quote(x))),
                }
            }
        } else {
            let (rt1, fr) = ev_expr(rt, env, *function, fuel);
            match fr {
                Err(f) => (rt1, Err(f)),
                Ok(fv) => if fv is Error {
                    (rt1, Ok(fv))
                } else {
                    let (rt2, ar) = ev_exprs(rt1, env, arguments, fuel);
                    match ar {
                        Err(f) => (rt2, Err(f)),
                        Ok(args) => if args.len() == 1 && args[0] is Error {
                            (rt2, Ok(args[0]))
                        } else {
                            match fv {
                                SObject::Function { parameters, body, env: fenv } => if fuel == 0 {
                                    (rt2, Err(Fault::Exhausted))
                                } else {
                                    let n = rt2.envs.len();
                                    let rt3 = bind_params(
                                        extend(rt2, Some(fenv)),
                                        n,
                                        parameters,
                                        args,
                                        min_len(parameters.len(), args.len()),
                                    );
                                    let (rt4, r) = ev_block(rt3, n, body, (fuel - 1) as nat);
                                    match r {
                                        Err(f) => (rt4, Err(f)),
                                        Ok(v) => (rt4, Ok(unwrap_return(v))),
                                    }
                                },
                                SObject::Builtin(b) => (
                                    SRuntime { envs: rt2.envs, output: rt2.output + builtin_printed(b, args) },
                                    Ok(builtin_result(b, args)),
                                ),
                                _ => (rt2, Ok(SObject::Error("not a function: "@ + type_text(obj_type(fv))))),
                            }
                        },
                    }
                },
            }
        },
        _ => (rt, Ok(SObject::Null)),
    }
}

/// An expression evaluated in scope `env`: the runtime after it, and its value or fault.
pub open spec fn ev_expr(rt: SRuntime, env: nat, e: SExpr, fuel: nat) -> (SRuntime, Result<SObject, Fault>)
    decreases fuel, e, 2int,
{
    match e {
        SExpr::Identifier(id) => (rt, Ok(ident_value(rt, env, id.value))),
        SExpr::IntegerLiteral { value, .. } => (rt, Ok(SObject::Integer(value))),
        SExpr::BooleanLiteral { value, .. } => (rt, Ok(SObject::Boolean(value))),
        SExpr::PrefixExpr { operator, right, .. } => {
            let (rt1, r) = ev_expr(rt, env, *right, fuel);
            match r {
                Err(f) => (rt1, Err(f)),
                Ok(v) => if v is Error {
                    (rt1, Ok(v))
                } else {
                    (rt1, prefix_op(operator, v))
                },
            }
        },
        SExpr::InfixExpr { left, operator, right, .. } => {
            let (rt1, lr) = ev_expr(rt, env, *left, fuel);
            match lr {
                Err(f) => (rt1, Err(f)),
                Ok(l) => if l is Error {
                    (rt1, Ok(l))
                } else {
                    let (rt2, rr) = ev_expr(rt1, env, *right, fuel);
                    match rr {
                        Err(f) => (rt2, Err(f)),
                        Ok(r) => if r is Error {
                            (rt2, Ok(r))
                        } else {
                            (rt2, infix_op(operator, l, r))
                        },
                    }
                },
            }
        },
        SExpr::IfLiteral { condition, consequence, alternative, .. } => {
            let (rt1, cr) = ev_expr(rt, env, *condition, fuel);
            match cr {
                Err(f) => (rt1, Err(f)),
                Ok(c) => if c is Error {
                    (rt1, Ok(c))
                } else if truthy(c) {
                    ev_block(rt1, env, consequence, fuel)
                } else {
                    match alternative {
                        Some(b) => ev_block(rt1, env, b, fuel),
                        None => (rt1, Ok(SObject::Null)),
                    }
                },
            }
        },
        SExpr::FunctionLiteral { parameters, body, .. } => (
            rt,
            Ok(SObject::Function { parameters, body, env }),
        ),
        SExpr::CallExpr { .. } => ev_call(rt, env, e, fuel),
        SExpr::StringLiteral { value, .. } => (rt, Ok(SObject::String(value))),
        SExpr::ArrayLiteral { elements, .. } => {
            let (rt1, r) = ev_exprs(rt, env, elements, fuel);
            match r {
                Err(f) => (rt1, Err(f)),
                Ok(vs) => if vs.len() == 1 && vs[0] is Error {
                    (rt1, Ok(vs[0]))
                } else {
                    (rt1, Ok(SObject::Array(vs)))
                },
            }
        },
        SExpr::IndexExpr { left, index, .. } => {
            let (rt1, lr) = ev_expr(rt, env, *left, fuel);
            match lr {
                Err(f) => (rt1, Err(f)),
                Ok(l) => if l is Error {
                    (rt1, Ok(l))
                } else {
                    let (rt2, ir) = ev_expr(rt1, env, *index, fuel);
                    match ir {
                        Err(f) => (rt2, Err(f)),
                        Ok(i) => if i is Error {
                            (rt2, Ok(i))
                        } else {
                            (rt2, Ok(index_op(l, i)))
                        },
                    }
                },
            }
        },
        SExpr::HashLiteral { pairs, .. } => {
            let (rt1, r) = ev_pairs(rt, env, pairs, fuel);
            match r {
                Err(f) => (rt1, Err(f)),
                Ok(Err(o)) => (rt1, Ok(o)),
                Ok(Ok(es)) => (rt1, Ok(SObject::Hash(es))),
            }
        },
        SExpr::MacroLiteral { parameters, body, .. } => (
            rt,
            Ok(SObject::Macro { parameters, body, env }),
        ),
    }
}

/// Expressions evaluated left to right; the first error value stops the list and is its only
/// element.
pub open spec fn ev_exprs(rt: SRuntime, env: nat, s: Seq<SExpr>, fuel: nat) -> (
    SRuntime,
    Result<Seq<SObject>, Fault>,
)
    decreases fuel, s, 2int,
{
    if s.len() == 0 {
        (rt, Ok(Seq::empty()))
    } else {
        let (rt1, r) = ev_exprs(rt, env, s.drop_last(), fuel);
        match r {
            Err(f) => (rt1, Err(f)),
            Ok(vs) => if vs.len() > 0 && vs.last() is Error {
                (rt1, Ok(vs))
            } else {
                let (rt2, r2) = ev_expr(rt1, env, s.last(), fuel);
                match r2 {
                    Err(f) => (rt2, Err(f)),
                    Ok(v) => if v is Error {
                        (rt2, Ok(seq![v]))
                    } else {
                        (rt2, Ok(vs.push(v)))
                    },
                }
            },
        }
    }
}

/// The pairs of a hash literal evaluated in order, each key before its value: the entries, or
/// the error value that stopped them.
pub open spec fn ev_pairs(rt: SRuntime, env: nat, s: Seq<SPair>, fuel: nat) -> (
    SRuntime,
    Result<Result<Seq<SEntry>, SObject>, Fault>,
)
    decreases fuel, s, 2int,
{
    if s.len() == 0 {
        (rt, Ok(Ok(Seq::empty())))
    } else {
        let (rt1, r) = ev_pairs(rt, env, s.drop_last(), fuel);
        match r {
            Err(f) => (rt1, Err(f)),
            Ok(Err(o)) => (rt1, Ok(Err(o))),
            Ok(Ok(es)) => {
                let (rt2, kr) = ev_expr(rt1, env, s.last().key, fuel);
                match kr {
                    Err(f) => (rt2, Err(f)),
                    Ok(k) => if k is Error {
                        (rt2, Ok(Err(k)))
                    } else {
                        match hash_key_of(k) {
                            Err(m) => (rt2, Ok(Err(SObject::Error(m)))),
                            Ok(hk) => {
                                let (rt3, vr) = ev_expr(rt2, env, s.last().value, fuel);
                                match vr {
                                    Err(f) => (rt3, Err(f)),
                                    Ok(v) => if v is Error {
                                        (rt3, Ok(Err(v)))
                                    } else {
                                        (rt3, Ok(Ok(hash_put(es, hk, (k, v)))))
                                    },
                                }
                            },
                        }
                    },
                }
            },
        }
    }
}

/// A statement evaluated in scope `env`.
pub open spec fn ev_stmt(rt: SRuntime, env: nat, s: SStmt, fuel: nat) -> (SRuntime, Result<SObject, Fault>)
    decreases fuel, s, 2int,
{
    match s {
        SStmt::Expression { expression, .. } => ev_expr(rt, env, expression, fuel),
        SStmt::Block(b) => ev_block(rt, env, b, fuel),
        SStmt::Return { value, .. } => {
            let (rt1, r) = ev_expr(rt, env, value, fuel);
            match r {
                Err(f) => (rt1, Err(f)),
                Ok(v) => if v is Error {
                    (rt1, Ok(v))
                } else {
                    (rt1, Ok(SObject::ReturnValue(Box::new(v))))
                },
            }
        },
        SStmt::Let { name, value, .. } => {
            let (rt1, r) = ev_expr(rt, env, value, fuel);
            match r {
                Err(f) => (rt1, Err(f)),
                Ok(v) => if v is Error {
                    (rt1, Ok(v))
                } else {
                    (assign(rt1, env as int, name.value, v), Ok(v))
                },
            }
        },
    }
}

/// Statements evaluated in order until one returns or fails: the value of the last one
/// evaluated, or `NULL` for none.
pub open spec fn ev_stmts(rt: SRuntime, env: nat, s: Seq<SStmt>, fuel: nat) -> (
    SRuntime,
    Result<SObject, Fault>,
)
    decreases fuel, s, 2int,
{
    if s.len() == 0 {
        (rt, Ok(SObject::Null))
    } else {
        let (rt1, r) = ev_stmts(rt, env, s.drop_last(), fuel);
        match r {
            Err(f) => (rt1, Err(f)),
            Ok(v) => if v is ReturnValue || v is Error {
                (rt1, Ok(v))
            } else {
                ev_stmt(rt1, env, s.last(), fuel)
            },
        }
    }
}

/// A block evaluated in scope `env`.
pub open spec fn ev_block(rt: SRuntime, env: nat, b: SBlock, fuel: nat) -> (SRuntime, Result<SObject, Fault>)
    decreases fuel, b, 2int,
{
    ev_stmts(rt, env, b.statements, fuel)
}

/// A program evaluated in scope `env`: its statements in order, a returned value unwrapped.
pub open spec fn ev_program(rt: SRuntime, env: nat, s: Seq<SStmt>, fuel: nat) -> (
    SRuntime,
    Result<SObject, Fault>,
) {
    let (rt1, r) = ev_stmts(rt, env, s, fuel);
    match r {
        Err(f) => (rt1, Err(f)),
        Ok(v) => (rt1, Ok(unwrap_return(v))),
    }
}

// ---------------------------------------------------------------------------
// Laws of evaluation
// ---------------------------------------------------------------------------

/// Once a statement returns or fails, the statements after it are not evaluated: the outcome
/// and the runtime stay those of the statements up to it.
pub proof fn law_return_or_error_stops(rt: SRuntime, env: nat, s: Seq<SStmt>, more: Seq<SStmt>, fuel: nat)
    requires
        ev_stmts(rt, env, s, fuel).1 matches Ok(v) && (v is ReturnValue || v is Error),
    ensures
        ev_stmts(rt, env, s + more, fuel) == ev_stmts(rt, env, s, fuel),
    decreases more.len(),
{
    if more.len() == 0 {
        assert(s + more =~= s);
    } else {
        law_return_or_error_stops(rt, env, s, more.drop_last(), fuel);
        assert((s + more).drop_last() =~= s + more.drop_last());
    }
}

/// A function value remembers the scope it was made in, and making it changes nothing else.
pub proof fn law_function_keeps_its_scope(rt: SRuntime, env: nat, e: SExpr, fuel: nat)
    requires
        e is FunctionLiteral,
    ensures
        ev_expr(rt, env, e, fuel) == (
            rt,
            Ok::<SObject, Fault>(
                SObject::Function { parameters: e->FunctionLiteral_parameters, body: e->FunctionLiteral_body, env },
            ),
        ),
{
}

/// A `return` inside a called function ends only that function: when the function's body
/// returns `x`, the call's value is `x` itself, never the returned-value wrapper; a body that
/// ends without `return` gives its last value; a fault of the body is the call's fault.
#[verifier::spinoff_prover]
#[verifier::rlimit(40)]
pub proof fn law_return_ends_only_the_call(
    rt: SRuntime,
    env: nat,
    token: SToken,
    function: SExpr,
    arguments: Seq<SExpr>,
    fuel: nat,
)
    requires
        expr_token(function).text != "quote"@,
        fuel > 0,
    ensures
        ({
            let call = SExpr::CallExpr { token, function: Box::new(function), arguments };
            let (rt1, fr) = ev_expr(rt, env, function, fuel);
            let (rt2, ar) = ev_exprs(rt1, env, arguments, fuel);
            match (fr, ar) {
                (Ok(SObject::Function { parameters, body, env: fenv }), Ok(args)) => {
                    let n = rt2.envs.len();
                    let rt3 = bind_params(
                        extend(rt2, Some(fenv)),
                        n,
                        parameters,
                        args,
                        min_len(parameters.len(), args.len()),
                    );
                    let (rt4, r) = ev_block(rt3, n, body, (fuel - 1) as nat);
                    !(args.len() == 1 && args[0] is Error) ==> match r {
                        Ok(SObject::ReturnValue(x)) => ev_expr(rt, env, call, fuel) == (
                            rt4,
                            Ok::<SObject, Fault>(*x),
                        ),
                        Ok(v) => ev_expr(rt, env, call, fuel) == (rt4, Ok::<SObject, Fault>(v)),
                        Err(f) => ev_expr(rt, env, call, fuel) == (rt4, Err::<SObject, Fault>(f)),
                    }
                },
                _ => true,
            }
        }),
{
    let call = SExpr::CallExpr { token, function: Box::new(function), arguments };
    assert(ev_expr(rt, env, call, fuel) == ev_call(rt, env, call, fuel));
}

/// A function that returns does not end the statements around its call: when the statements
/// before a call statement `f(..);` go on normally and the call's body returns a value `x`
/// that is neither an error nor itself a returned value, the statement after the call is
/// evaluated next, from the runtime the call leaves.
#[verifier::spinoff_prover]
#[verifier::rlimit(60)]
pub proof fn law_statements_go_on_after_a_return(
    rt: SRuntime,
    env: nat,
    before: Seq<SStmt>,
    stoken: SToken,
    token: SToken,
    function: SExpr,
    arguments: Seq<SExpr>,
    after: SStmt,
    fuel: nat,
)
    requires
        expr_token(function).text != "quote"@,
        fuel > 0,
    ensures
        ({
            let call = SExpr::CallExpr { token, function: Box::new(function), arguments };
            let s = before.push(SStmt::Expression { token: stoken, expression: call }).push(after);
            let (rt0, r0) = ev_stmts(rt, env, before, fuel);
            let (rt1, fr) = ev_expr(rt0, env, function, fuel);
            let (rt2, ar) = ev_exprs(rt1, env, arguments, fuel);
            match (r0, fr, ar) {
                (Ok(v0), Ok(SObject::Function { parameters, body, env: fenv }), Ok(args)) => {
                    let n = rt2.envs.len();
                    let rt3 = bind_params(
                        extend(rt2, Some(fenv)),
                        n,
                        parameters,
                        args,
                        min_len(parameters.len(), args.len()),
                    );
                    let (rt4, r) = ev_block(rt3, n, body, (fuel - 1) as nat);
                    (!(v0 is ReturnValue) && !(v0 is Error) && !(args.len() == 1 && args[0] is Error))
                        ==> match r {
                        Ok(SObject::ReturnValue(x)) => (!(*x is ReturnValue) && !(*x is Error)) ==> ev_stmts(
                            rt,
                            env,
                            s,
                            fuel,
                        ) == ev_stmt(rt4, env, after, fuel),
                        _ => true,
                    }
                },
                _ => true,
            }
        }),
{
    let call = SExpr::CallExpr { token, function: Box::new(function), arguments };
    let cs = SStmt::Expression { token: stoken, expression: call };
    let s1 = before.push(cs);
    let s = s1.push(after);
    assert(s.drop_last() == s1);
    assert(s1.drop_last() == before);
    assert(s.last() == after);
    assert(s1.last() == cs);
    let (rt0, r0) = ev_stmts(rt, env, before, fuel);
    law_return_ends_only_the_call(rt0, env, token, function, arguments, fuel);
    assert(ev_stmt(rt0, env, cs, fuel) == ev_expr(rt0, env, call, fuel));
    match r0 {
        Ok(v0) => {
            if !(v0 is ReturnValue) && !(v0 is Error) {
                assert(ev_stmts(rt, env, s1, fuel) == ev_stmt(rt0, env, cs, fuel));
                let (rt5, r5) = ev_stmts(rt, env, s1, fuel);
                assert(ev_stmts(rt, env, s, fuel) == match r5 {
                    Err(f) => (rt5, Err::<SObject, Fault>(f)),
                    Ok(v) => if v is ReturnValue || v is Error {
                        (rt5, Ok::<SObject, Fault>(v))
                    } else {
                        ev_stmt(rt5, env, after, fuel)
                    },
                });
            }
        },
        Err(_) => {},
    }
}

/// Integer arithmetic and comparison mean what they say: `+` and `*` do not depend on the
/// order of their operands; `-` undoes `+`; `/` rounds toward zero (the quotient times the
/// divisor falls short of the dividend by less than the divisor, on the dividend's side of
/// zero); `<` and `>` are each other's mirror, and exactly one of `<`, `==`, `>` holds; `!=`
/// is the opposite of `==`.
pub proof fn law_integer_arithmetic(a: i64, b: i64)
    ensures
        infix_op("+"@, SObject::Integer(a), SObject::Integer(b)) == infix_op("+"@, SObject::Integer(b), SObject::Integer(a)),
        infix_op("*"@, SObject::Integer(a), SObject::Integer(b)) == infix_op("*"@, SObject::Integer(b), SObject::Integer(a)),
        infix_op("+"@, SObject::Integer(a), SObject::Integer(b)) matches Ok(SObject::Integer(s)) ==> s - b == a
            && infix_op("-"@, SObject::Integer(s), SObject::Integer(b)) == Ok::<SObject, Fault>(SObject::Integer(a)),
        infix_op("+"@, SObject::Integer(a), SObject::Integer(b)) is Err <==> !(i64::MIN <= a + b <= i64::MAX),
        infix_op("*"@, SObject::Integer(a), SObject::Integer(b)) matches Ok(SObject::Integer(m)) ==> (b != 0 ==> m / b == a),
        b == 0 ==> infix_op("/"@, SObject::Integer(a), SObject::Integer(b)) == Err::<SObject, Fault>(Fault::DivisionByZero),
        infix_op("/"@, SObject::Integer(a), SObject::Integer(b)) matches Ok(SObject::Integer(q)) ==> ({
            let r = a - q * b;
            &&& (r == 0 || (r > 0) == (a > 0))
            &&& (if r >= 0 { r } else { -r }) < (if b >= 0 { b as int } else { -b })
        }),
        infix_op("<"@, SObject::Integer(a), SObject::Integer(b)) == infix_op(">"@, SObject::Integer(b), SObject::Integer(a)),
        infix_op("<"@, SObject::Integer(a), SObject::Integer(b)) matches Ok(SObject::Boolean(lt))
            && infix_op("=="@, SObject::Integer(a), SObject::Integer(b)) matches Ok(SObject::Boolean(eq))
            && infix_op(">"@, SObject::Integer(a), SObject::Integer(b)) matches Ok(SObject::Boolean(gt))
            && infix_op("!="@, SObject::Integer(a), SObject::Integer(b)) == Ok::<SObject, Fault>(SObject::Boolean(!eq))
            && (lt as int) + (eq as int) + (gt as int) == 1
            && (eq <==> a == b),
{
    reveal_strlit("+");
    reveal_strlit("-");
    reveal_strlit("*");
    reveal_strlit("/");
    reveal_strlit("<");
    reveal_strlit(">");
    reveal_strlit("==");
    reveal_strlit("!=");
    assert("*"@[0] != "+"@[0] && "*"@[0] != "-"@[0]);
    assert("/"@[0] != "+"@[0] && "/"@[0] != "-"@[0] && "/"@[0] != "*"@[0]);
    assert("<"@[0] != "+"@[0] && "<"@[0] != "-"@[0] && "<"@[0] != "*"@[0] && "<"@[0] != "/"@[0]);
    assert(">"@[0] != "+"@[0] && ">"@[0] != "-"@[0] && ">"@[0] != "*"@[0] && ">"@[0] != "/"@[0]
        && ">"@[0] != "<"@[0]);
    assert("=="@[1] != "!="@[1] || "=="@[0] != "!="@[0]);
    assert((a as int) * (b as int) == (b as int) * (a as int)) by (nonlinear_arith);
    if b != 0 {
        let ai = a as int;
        let bi = b as int;
        let q = trunc_div(ai, bi);
        assert(infix_op("/"@, SObject::Integer(a), SObject::Integer(b)) == checked(q));
        if ai == 0 {
            assert(q == 0);
        } else if ai > 0 && bi > 0 {
            assert(0 <= ai - q * bi < bi) by (nonlinear_arith)
                requires
                    ai > 0,
                    bi > 0,
                    q == ai / bi,
            ;
        } else if ai < 0 && bi < 0 {
            assert(bi < ai - q * bi && ai - q * bi <= 0) by (nonlinear_arith)
                requires
                    ai < 0,
                    bi < 0,
                    q == (ai * -1) / (bi * -1),
            ;
        } else if ai < 0 && bi > 0 {
            assert(-bi < ai - q * bi && ai - q * bi <= 0) by (nonlinear_arith)
                requires
                    ai < 0,
                    bi > 0,
                    q == ((ai * -1) / bi) * -1,
            ;
        } else if ai > 0 && bi < 0 {
            assert(0 <= ai - q * bi < -bi) by (nonlinear_arith)
                requires
                    ai > 0,
                    bi < 0,
                    q == (ai / (bi * -1)) * -1,
            ;
        }
        if checked(q) is Ok {
            let r = ai - q * bi;
            assert(r == 0 || (r > 0) == (ai > 0));
            assert((if r >= 0 { r } else { -r }) < (if bi >= 0 { bi } else { -bi }));
            assert(checked(q) == Ok::<SObject, Fault>(SObject::Integer(q as i64)));
            assert((q as i64) as int == q);
        }
        if infix_op("*"@, SObject::Integer(a), SObject::Integer(b)) is Ok {
            assert((ai * bi) / bi == ai) by (nonlinear_arith)
                requires
                    bi != 0,
            ;
        }
    }
}

/// Indexing an array agrees with `first`, `last` and `rest`: index `0` is the first element,
/// the last index is the last element, index `1` is the first element of the rest, and an
/// index outside the array gives `null`.
pub proof fn law_index_agrees_with_first_last_rest(v: Seq<SObject>, k: i64)
    ensures
        (k < 0 || k >= v.len()) ==> index_op(SObject::Array(v), SObject::Integer(k)) == SObject::Null,
        v.len() > 0 ==> index_op(SObject::Array(v), SObject::Integer(0)) == builtin_result(
            crate::object::Builtin::First,
            seq![SObject::Array(v)],
        ),
        0 < v.len() <= i64::MAX ==> index_op(SObject::Array(v), SObject::Integer((v.len() - 1) as i64))
            == builtin_result(crate::object::Builtin::Last, seq![SObject::Array(v)]),
        v.len() > 1 ==> index_op(SObject::Array(v), SObject::Integer(1)) == builtin_result(
            crate::object::Builtin::First,
            seq![builtin_result(crate::object::Builtin::Rest, seq![SObject::Array(v)])],
        ),
{
    if v.len() > 1 {
        assert(v.drop_first()[0] == v[1]);
    }
}

/// A name bound by `let` reads back as the value bound: after statements that go on
/// normally, `let x = e; x` gives the value of `e`, in the runtime where `x` is bound to it.
#[verifier::spinoff_prover]
#[verifier::rlimit(40)]
pub proof fn law_let_then_read(
    rt: SRuntime,
    env: nat,
    before: Seq<SStmt>,
    ltoken: SToken,
    name: SIdent,
    value: SExpr,
    stoken: SToken,
    fuel: nat,
)
    ensures
        ({
            let s = before.push(SStmt::Let { token: ltoken, name, value }).push(
                SStmt::Expression { token: stoken, expression: SExpr::Identifier(name) },
            );
            let (rt0, r0) = ev_stmts(rt, env, before, fuel);
            let (rt1, r1) = ev_expr(rt0, env, value, fuel);
            match (r0, r1) {
                (Ok(v0), Ok(v)) => (!(v0 is ReturnValue) && !(v0 is Error) && !(v is Error) && env
                    < rt1.envs.len()) ==> ev_stmts(rt, env, s, fuel) == (
                    assign(rt1, env as int, name.value, v),
                    Ok::<SObject, Fault>(v),
                ),
                _ => true,
            }
        }),
{
    let ls = SStmt::Let { token: ltoken, name, value };
    let rs = SStmt::Expression { token: stoken, expression: SExpr::Identifier(name) };
    let s1 = before.push(ls);
    let s = s1.push(rs);
    assert(s.drop_last() == s1);
    assert(s1.drop_last() == before);
    assert(s.last() == rs);
    assert(s1.last() == ls);
    let (rt0, r0) = ev_stmts(rt, env, before, fuel);
    let (rt1, r1) = ev_expr(rt0, env, value, fuel);
    match (r0, r1) {
        (Ok(v0), Ok(v)) => {
            if !(v0 is ReturnValue) && !(v0 is Error) && !(v is Error) && env < rt1.envs.len() {
                let rt2 = assign(rt1, env as int, name.value, v);
                assert(ev_stmt(rt0, env, ls, fuel) == (rt2, Ok::<SObject, Fault>(v)));
                assert(ev_stmts(rt, env, s1, fuel) == (rt2, Ok::<SObject, Fault>(v)));
                crate::environment::law_read_after_write(rt1, env, name.value, v);
                assert(ev_stmt(rt2, env, rs, fuel) == (rt2, Ok::<SObject, Fault>(v)));
            }
        },
        _ => {},
    }
}

/// `!` gives the opposite of a value's truthiness; so `!` twice gives its truthiness.
pub proof fn law_bang(v: SObject)
    ensures
        prefix_op("!"@, v) == Ok::<SObject, Fault>(SObject::Boolean(!truthy(v))),
        prefix_op("!"@, SObject::Boolean(!truthy(v))) == Ok::<SObject, Fault>(SObject::Boolean(truthy(v))),
{
}

/// Evaluating `!!e` gives the truthiness of the value of `e`, with the runtime that evaluating
/// `e` leaves; an error or a fault of `e` comes back as it is.
pub proof fn law_double_bang(rt: SRuntime, env: nat, e: SExpr, inner: SToken, outer: SToken, fuel: nat)
    ensures
        ({
            let once = SExpr::PrefixExpr { token: inner, operator: "!"@, right: Box::new(e) };
            let twice = SExpr::PrefixExpr { token: outer, operator: "!"@, right: Box::new(once) };
            let (rt1, r) = ev_expr(rt, env, e, fuel);
            ev_expr(rt, env, twice, fuel) == match r {
                Err(f) => (rt1, Err::<SObject, Fault>(f)),
                Ok(v) => if v is Error {
                    (rt1, Ok::<SObject, Fault>(v))
                } else {
                    (rt1, Ok::<SObject, Fault>(SObject::Boolean(truthy(v))))
                },
            }
        }),
{
    let once = SExpr::PrefixExpr { token: inner, operator: "!"@, right: Box::new(e) };
    let twice = SExpr::PrefixExpr { token: outer, operator: "!"@, right: Box::new(once) };
    let (rt1, r) = ev_expr(rt, env, e, fuel);
    assert(ev_expr(rt, env, once, fuel) == match r {
        Err(f) => (rt1, Err::<SObject, Fault>(f)),
        Ok(v) => if v is Error {
            (rt1, Ok::<SObject, Fault>(v))
        } else {
            (rt1, prefix_op("!"@, v))
        },
    });
    match r {
        Ok(v) => {
            law_bang(v);
        },
        Err(f) => {},
    }
}

/// Whether an expression holds no `unquote` call with one argument, anywhere a rewrite looks.
pub open spec fn unquote_free(e: SExpr) -> bool
    decreases e,
{
    match e {
        SExpr::PrefixExpr { right, .. } => unquote_free(*right),
        SExpr::InfixExpr { left, right, .. } => unquote_free(*left) && unquote_free(*right),
        SExpr::IfLiteral { condition, consequence, alternative, .. } => unquote_free(*condition)
            && unquote_free_block(consequence) && match alternative {
            Some(b) => unquote_free_block(b),
            None => true,
        },
        SExpr::FunctionLiteral { body, .. } => unquote_free_block(body),
        SExpr::CallExpr { function, arguments, .. } => unquote_free(*function) && unquote_free_all(arguments)
            && !(*function matches SExpr::Identifier(id) && id.value == "unquote"@ && arguments.len() == 1),
        SExpr::ArrayLiteral { elements, .. } => unquote_free_all(elements),
        SExpr::IndexExpr { left, index, .. } => unquote_free(*left) && unquote_free(*index),
        SExpr::HashLiteral { pairs, .. } => unquote_free_pairs(pairs),
        _ => true,
    }
}

/// Whether expressions hold no `unquote` call.
pub open spec fn unquote_free_all(s: Seq<SExpr>) -> bool
    decreases s,
{
    s.len() == 0 || (unquote_free_all(s.drop_last()) && unquote_free(s.last()))
}

/// Whether the pairs of a hash literal hold no `unquote` call.
pub open spec fn unquote_free_pairs(s: Seq<SPair>) -> bool
    decreases s,
{
    s.len() == 0 || (unquote_free_pairs(s.drop_last()) && unquote_free(s.last().key) && unquote_free(s.last().value))
}

/// Whether a statement holds no `unquote` call.
pub open spec fn unquote_free_stmt(s: SStmt) -> bool
    decreases s,
{
    match s {
        SStmt::Let { value, .. } => unquote_free(value),
        SStmt::Return { value, .. } => unquote_free(value),
        SStmt::Expression { expression, .. } => unquote_free(expression),
        SStmt::Block(b) => unquote_free_block(b),
    }
}

/// Whether statements hold no `unquote` call.
pub open spec fn unquote_free_stmts(s: Seq<SStmt>) -> bool
    decreases s,
{
    s.len() == 0 || (unquote_free_stmts(s.drop_last()) && unquote_free_stmt(s.last()))
}

/// Whether a block holds no `unquote` call.
pub open spec fn unquote_free_block(b: SBlock) -> bool
    decreases b,
{
    unquote_free_stmts(b.statements)
}

proof fn lemma_unquote_free(rt: SRuntime, st: Status, env: nat, e: SExpr, fuel: nat)
    requires
        unquote_free(e),
    ensures
        rw_expr(Mode::Unquote, rt, st, env, e, fuel) == (rt, st, e),
    decreases e,
{
    match e {
        SExpr::PrefixExpr { right, .. } => lemma_unquote_free(rt, st, env, *right, fuel),
        SExpr::InfixExpr { left, right, .. } => {
            lemma_unquote_free(rt, st, env, *left, fuel);
            lemma_unquote_free(rt, st, env, *right, fuel);
        },
        SExpr::IfLiteral { condition, consequence, alternative, .. } => {
            lemma_unquote_free(rt, st, env, *condition, fuel);
            lemma_unquote_free_block(rt, st, env, consequence, fuel);
            match alternative {
                Some(b) => lemma_unquote_free_block(rt, st, env, b, fuel),
                None => {},
            }
        },
        SExpr::FunctionLiteral { body, .. } => lemma_unquote_free_block(rt, st, env, body, fuel),
        SExpr::CallExpr { function, arguments, .. } => {
            lemma_unquote_free(rt, st, env, *function, fuel);
            lemma_unquote_free_all(rt, st, env, arguments, fuel);
            assert(!candidate(Mode::Unquote, rt, st, env, e));
        },
        SExpr::ArrayLiteral { elements, .. } => lemma_unquote_free_all(rt, st, env, elements, fuel),
        SExpr::IndexExpr { left, index, .. } => {
            lemma_unquote_free(rt, st, env, *left, fuel);
            lemma_unquote_free(rt, st, env, *index, fuel);
        },
        SExpr::HashLiteral { pairs, .. } => lemma_unquote_free_pairs(rt, st, env, pairs, fuel),
        _ => {},
    }
}

proof fn lemma_unquote_free_all(rt: SRuntime, st: Status, env: nat, s: Seq<SExpr>, fuel: nat)
    requires
        unquote_free_all(s),
    ensures
        rw_exprs(Mode::Unquote, rt, st, env, s, fuel) == (rt, st, s),
    decreases s,
{
    if s.len() > 0 {
        lemma_unquote_free_all(rt, st, env, s.drop_last(), fuel);
        lemma_unquote_free(rt, st, env, s.last(), fuel);
        assert(s.drop_last().push(s.last()) =~= s);
    }
}

proof fn lemma_unquote_free_pairs(rt: SRuntime, st: Status, env: nat, s: Seq<SPair>, fuel: nat)
    requires
        unquote_free_pairs(s),
    ensures
        rw_pairs(Mode::Unquote, rt, st, env, s, fuel) == (rt, st, s),
    decreases s,
{
    if s.len() > 0 {
        lemma_unquote_free_pairs(rt, st, env, s.drop_last(), fuel);
        lemma_unquote_free(rt, st, env, s.last().key, fuel);
        lemma_unquote_free(rt, st, env, s.last().value, fuel);
        assert(s.drop_last().push(SPair { key: s.last().key, value: s.last().value }) =~= s);
    }
}

proof fn lemma_unquote_free_stmt(rt: SRuntime, st: Status, env: nat, s: SStmt, fuel: nat)
    requires
        unquote_free_stmt(s),
    ensures
        rw_stmt(Mode::Unquote, rt, st, env, s, fuel) == (rt, st, s),
    decreases s,
{
    match s {
        SStmt::Let { value, .. } => lemma_unquote_free(rt, st, env, value, fuel),
        SStmt::Return { value, .. } => lemma_unquote_free(rt, st, env, value, fuel),
        SStmt::Expression { expression, .. } => lemma_unquote_free(rt, st, env, expression, fuel),
        SStmt::Block(b) => lemma_unquote_free_block(rt, st, env, b, fuel),
    }
}

proof fn lemma_unquote_free_stmts(rt: SRuntime, st: Status, env: nat, s: Seq<SStmt>, fuel: nat)
    requires
        unquote_free_stmts(s),
    ensures
        rw_stmts(Mode::Unquote, rt, st, env, s, fuel) == (rt, st, s),
    decreases s,
{
    if s.len() > 0 {
        lemma_unquote_free_stmts(rt, st, env, s.drop_last(), fuel);
        lemma_unquote_free_stmt(rt, st, env, s.last(), fuel);
        assert(s.drop_last().push(s.last()) =~= s);
    }
}

proof fn lemma_unquote_free_block(rt: SRuntime, st: Status, env: nat, b: SBlock, fuel: nat)
    requires
        unquote_free_block(b),
    ensures
        rw_block(Mode::Unquote, rt, st, env, b, fuel) == (rt, st, b),
    decreases b,
{
    lemma_unquote_free_stmts(rt, st, env, b.statements, fuel);
}

/// `quote` of an expression that holds no `unquote` call gives that expression back, and
/// changes nothing.
pub proof fn law_quote_without_unquote(rt: SRuntime, env: nat, e: SExpr, fuel: nat)
    requires
        e is CallExpr,
        expr_token(*e->function).text == "quote"@,
        e->arguments.len() == 1,
        unquote_free(e->arguments[0]),
    ensures
        ev_expr(rt, env, e, fuel) == (rt, Ok::<SObject, Fault>(SObject::Quote(e->arguments[0]))),
{
    lemma_unquote_free(rt, Status::Going, env, e->arguments[0], fuel);
    assert(ev_expr(rt, env, e, fuel) == ev_call(rt, env, e, fuel));
    assert(ev_call(rt, env, e, fuel) == (rt, Ok::<SObject, Fault>(SObject::Quote(e->arguments[0]))));
}

// ---------------------------------------------------------------------------
// Evaluation
// ---------------------------------------------------------------------------

/// The abstract value of an evaluation's outcome.
pub open spec fn res_v(r: Result<Object, Fault>) -> Result<SObject, Fault> {
    match r {
        Ok(o) => Ok(obj_v(o)),
        Err(f) => Err(f),
    }
}

/// The abstract value of a list evaluation's outcome.
pub open spec fn list_v(fault: Option<Fault>, vals: Seq<Object>) -> Result<Seq<SObject>, Fault> {
    match fault {
        Some(f) => Err(f),
        None => Ok(objs_v(vals)),
    }
}

#[verifier::spinoff_prover]
pub(crate) fn is_error(o: &Object) -> (b: bool)
    ensures
        b == (o@ is Error),
{
    match o {
        Object::Error(_) => true,
        _ => false,
    }
}

#[verifier::spinoff_prover]
fn type_error(prefix: &str, t: ObjectType) -> (o: Object)
    ensures
        o@ == SObject::Error(prefix@ + type_text(t)),
{
    let mut m = owned(prefix);
    let n = t.name();
    push_str(&mut m, n.as_str());
    Object::Error(m)
}

#[verifier::spinoff_prover]
fn binary_error(prefix: &str, lt: ObjectType, op: &String, rt: ObjectType) -> (o: Object)
    ensures
        o@ == SObject::Error(prefix@ + type_text(lt) + " "@ + op@ + " "@ + type_text(rt)),
{
    let mut m = owned(prefix);
    let a = lt.name();
    push_str(&mut m, a.as_str());
    push_str(&mut m, " ");
    push_str(&mut m, op.as_str());
    push_str(&mut m, " ");
    let b = rt.name();
    push_str(&mut m, b.as_str());
    Object::Error(m)
}

#[verifier::spinoff_prover]
fn unwrap_returned(o: Object) -> (r: Object)
    ensures
        r@ == unwrap_return(o@),
{
    match o {
        Object::ReturnValue(v) => *v,
        other => other,
    }
}

#[verifier::spinoff_prover]
fn is_truthy(o: &Object) -> (b: bool)
    ensures
        b == truthy(o@),
{
    match o {
        Object::Boolean(b) => *b,
        Object::Null => false,
        _ => true,
    }
}

#[verifier::spinoff_prover]
fn eval_prefix(op: &String, right: Object) -> (r: Result<Object, Fault>)
    ensures
        res_v(r) == prefix_op(op@, right@),
{
    if same_text(op, "!") {
        let b = match &right {
            Object::Boolean(b) => !*b,
            Object::Null => true,
            _ => false,
        };
        Ok(Object::Boolean(b))
    } else if same_text(op, "-") {
        match &right {
            Object::Integer(i) => {
                if *i == i64::MIN {
                    Err(Fault::Overflow)
                } else {
                    Ok(Object::Integer(-*i))
                }
            },
            _ => Ok(type_error("unknown operator: -", right.object_type())),
        }
    } else {
        let mut m = owned("unknown operator: ");
        push_str(&mut m, op.as_str());
        let t = right.object_type().name();
        push_str(&mut m, t.as_str());
        Ok(Object::Error(m))
    }
}

#[verifier::spinoff_prover]
fn int_result(v: Option<i64>) -> (r: Result<Object, Fault>)
    ensures
        match v {
            Some(x) => res_v(r) == Ok::<SObject, Fault>(SObject::Integer(x)),
            None => r == Err::<Object, Fault>(Fault::Overflow),
        },
{
    match v {
        Some(x) => Ok(Object::Integer(x)),
        None => Err(Fault::Overflow),
    }
}

#[verifier::spinoff_prover]
fn eval_int_infix(op: &String, a: i64, b: i64) -> (r: Result<Object, Fault>)
    ensures
        res_v(r) == infix_op(op@, SObject::Integer(a), SObject::Integer(b)),
{
    if same_text(op, "+") {
        int_result(a.checked_add(b))
    } else if same_text(op, "-") {
        int_result(a.checked_sub(b))
    } else if same_text(op, "*") {
        int_result(a.checked_mul(b))
    } else if same_text(op, "/") {
        if b == 0 {
            Err(Fault::DivisionByZero)
        } else {
            int_result(a.checked_div(b))
        }
    } else if same_text(op, "<") {
        Ok(Object::Boolean(a < b))
    } else if same_text(op, ">") {
        Ok(Object::Boolean(a > b))
    } else if same_text(op, "==") {
        Ok(Object::Boolean(a == b))
    } else if same_text(op, "!=") {
        Ok(Object::Boolean(a != b))
    } else {
        Ok(binary_error("unknown operator: ", ObjectType::Integer, op, ObjectType::Integer))
    }
}

#[verifier::spinoff_prover]
fn eval_infix(op: &String, l: Object, r: Object) -> (res: Result<Object, Fault>)
    ensures
        res_v(res) == infix_op(op@, l@, r@),
{
    match &l {
        Object::Integer(a) => {
            if let Object::Integer(b) = &r {
                return eval_int_infix(op, *a, *b);
            }
        },
        Object::Boolean(a) => {
            if let Object::Boolean(b) = &r {
                if same_text(op, "==") {
                    return Ok(Object::Boolean(*a == *b));
                } else if same_text(op, "!=") {
                    return Ok(Object::Boolean(*a != *b));
                } else {
                    return Ok(binary_error("unknown operator: ", ObjectType::Boolean, op, ObjectType::Boolean));
                }
            }
        },
        Object::String(a) => {
            if let Object::String(b) = &r {
                if same_text(op, "+") {
                    let mut s = a.clone();
                    push_str(&mut s, b.as_str());
                    return Ok(Object::String(s));
                } else {
                    return Ok(binary_error("unknown operator: ", ObjectType::String, op, ObjectType::String));
                }
            }
        },
        _ => {},
    }
    Ok(binary_error("type mismatch: ", l.object_type(), op, r.object_type()))
}

#[verifier::spinoff_prover]
fn eval_index(l: Object, i: Object) -> (r: Object)
    ensures
        r@ == index_op(l@, i@),
{
    match &l {
        Object::Array(v) => {
            proof {
                lemma_objs_v(v@);
            }
            match &i {
                Object::Integer(k) => {
                    if *k < 0 || (*k as u64) >= (v.len() as u64) {
                        Object::Null
                    } else {
                        v[*k as usize].duplicate()
                    }
                },
                _ => type_error("index operator not supported: ", l.object_type()),
            }
        },
        Object::Hash(h) => {
            match i.hash_key() {
                Ok(hk) => match h.get(&hk) {
                    Some(p) => p.value.duplicate(),
                    None => Object::Null,
                },
                Err(m) => Object::Error(m),
            }
        },
        _ => type_error("index operator not supported: ", l.object_type()),
    }
}

#[verifier::spinoff_prover]
fn eval_ident(id: &Identifier, env: EnvironmentRef, rt: &Runtime) -> (o: Object)
    ensures
        o@ == ident_value(rt@, env.index as nat, id@.value),
{
    match rt.get(env, id.value.as_str()) {
        Some(v) => v,
        None => match lookup_builtin(id.value.as_str()) {
            Some(b) => Object::Builtin(b),
            None => {
                let mut m = owned("identifier not found: ");
                push_str(&mut m, id.value.as_str());
                Object::Error(m)
            },
        },
    }
}

/// Binds the parameters to the arguments, pairwise, in scope `n`.
#[verifier::spinoff_prover]
fn bind_args(rt: &mut Runtime, n: EnvironmentRef, params: &Vec<Identifier>, args: &Vec<Object>)
    ensures
        final(rt)@ == bind_params(
            old(rt)@,
            n.index as nat,
            idents_v(params@),
            objs_v(args@),
            min_len(params@.len(), args@.len()),
        ),
{
    let ghost rt0 = rt@;
    let ghost ps = idents_v(params@);
    let ghost av = objs_v(args@);
    proof {
        lemma_objs_v(args@);
    }
    let k = if params.len() <= args.len() {
        params.len()
    } else {
        args.len()
    };
    let mut j: usize = 0;
    while j < k
        invariant
            j <= k,
            k == min_len(params@.len(), args@.len()),
            ps == idents_v(params@),
            av == objs_v(args@),
            av.len() == args@.len(),
            forall|m: int| 0 <= m < args@.len() ==> #[trigger] av[m] == obj_v(args@[m]),
            rt@ == bind_params(rt0, n.index as nat, ps, av, j as nat),
        decreases k - j,
    {
        let v = args[j].duplicate();
        let _ = rt.set(n, params[j].value.as_str(), v);
        j = j + 1;
    }
}

#[verifier::spinoff_prover]
pub(crate) fn object_to_ast(o: Object) -> (r: Option<Expression>)
    ensures
        match r {
            Some(x) => to_ast(o@) == Some(x@),
            None => to_ast(o@) is None,
        },
{
    match o {
        Object::Integer(v) => {
            let t = i64_text(v);
            Some(Expression::IntegerLiteral { token: Token::new(TokenType::INT, t.as_str()), value: v })
        },
        Object::Boolean(b) => {
            if b {
                Some(Expression::BooleanLiteral { token: Token::new(TokenType::TRUE, "true"), value: true })
            } else {
                Some(Expression::BooleanLiteral { token: Token::new(TokenType::FALSE, "false"), value: false })
            }
        },
        Object::Quote(e) => Some(e),
        _ => None,
    }
}

#[verifier::spinoff_prover]
#[verifier::rlimit(40)]
fn eval_exprs(v: &Vec<Expression>, env: EnvironmentRef, rt: &mut Runtime, fuel: u64) -> (r: Result<Vec<Object>, Fault>)
    ensures
        final(rt)@ == ev_exprs(old(rt)@, env.index as nat, exprs_v(v@), fuel as nat).0,
        match r {
            Ok(vals) => ev_exprs(old(rt)@, env.index as nat, exprs_v(v@), fuel as nat).1 == Ok::<Seq<SObject>, Fault>(objs_v(vals@)),
            Err(f) => ev_exprs(old(rt)@, env.index as nat, exprs_v(v@), fuel as nat).1 == Err::<Seq<SObject>, Fault>(f),
        },
    decreases fuel, v, 2int,
{
    let ghost rt0 = rt@;
    let ghost e = env.index as nat;
    proof {
        assert(v@.take(0) =~= Seq::<Expression>::empty());
    }
    let mut vals: Vec<Object> = Vec::new();
    let mut fault: Option<Fault> = None;
    let mut i: usize = 0;
    while i < v.len()
        invariant
            i <= v.len(),
            e == env.index as nat,
            rt@ == ev_exprs(rt0, e, exprs_v(v@.take(i as int)), fuel as nat).0,
            list_v(fault, vals@) == ev_exprs(rt0, e, exprs_v(v@.take(i as int)), fuel as nat).1,
        decreases v.len() - i,
    {
        proof {
            assert(v@.take(i + 1).drop_last() =~= v@.take(i as int));
            assert(v@.take(i + 1).last() == v@[i as int]);
            let s1 = exprs_v(v@.take(i + 1));
            assert(s1.drop_last() == exprs_v(v@.take(i as int)));
            assert(s1.last() == expr_v(v@[i as int]));
            if vals@.len() > 0 {
                assert(objs_v(vals@).last() == obj_v(vals@.last()));
            }
        }
        let stopped = fault.is_some() || (vals.len() > 0 && is_error(&vals[vals.len() - 1]));
        if !stopped {
            let r = eval_expr(&v[i], env, rt, fuel);
            match r {
                Err(f) => {
                    fault = Some(f);
                },
                Ok(o) => {
                    if is_error(&o) {
                        let mut w: Vec<Object> = Vec::new();
                        w.push(o);
                        proof {
                            lemma_objs_v(w@);
                            assert(objs_v(w@) =~= seq![obj_v(w@[0])]);
                        }
                        vals = w;
                    } else {
                        let ghost old_vals = vals@;
                        vals.push(o);
                        proof {
                            assert(vals@.drop_last() =~= old_vals);
                        }
                    }
                },
            }
        }
        i = i + 1;
    }
    proof {
        assert(v@.take(v.len() as int) =~= v@);
    }
    match fault {
        Some(f) => Err(f),
        None => Ok(vals),
    }
}

/// The abstract value of a hash literal's evaluation so far.
pub open spec fn pairs_state(fault: Option<Fault>, stop: Option<Object>, entries: HashPairs) -> Result<
    Result<Seq<SEntry>, SObject>,
    Fault,
> {
    match fault {
        Some(f) => Err(f),
        None => Ok(
            match stop {
                Some(o) => Err(obj_v(o)),
                None => Ok(entries@),
            },
        ),
    }
}

#[verifier::spinoff_prover]
#[verifier::rlimit(40)]
fn eval_pairs(v: &Vec<HashPair>, env: EnvironmentRef, rt: &mut Runtime, fuel: u64) -> (r: Result<Result<HashPairs, Object>, Fault>)
    ensures
        final(rt)@ == ev_pairs(old(rt)@, env.index as nat, pairs_v(v@), fuel as nat).0,
        match r {
            Ok(Ok(h)) => ev_pairs(old(rt)@, env.index as nat, pairs_v(v@), fuel as nat).1 == Ok::<Result<Seq<SEntry>, SObject>, Fault>(Ok(h@)),
            Ok(Err(o)) => ev_pairs(old(rt)@, env.index as nat, pairs_v(v@), fuel as nat).1 == Ok::<Result<Seq<SEntry>, SObject>, Fault>(Err(o@)),
            Err(f) => ev_pairs(old(rt)@, env.index as nat, pairs_v(v@), fuel as nat).1 == Err::<Result<Seq<SEntry>, SObject>, Fault>(f),
        },
    decreases fuel, v, 2int,
{
    let ghost rt0 = rt@;
    let ghost e = env.index as nat;
    proof {
        assert(v@.take(0) =~= Seq::<HashPair>::empty());
    }
    let mut entries = HashPairs::new();
    let mut stop: Option<Object> = None;
    let mut fault: Option<Fault> = None;
    let mut i: usize = 0;
    while i < v.len()
        invariant
            i <= v.len(),
            e == env.index as nat,
            rt@ == ev_pairs(rt0, e, pairs_v(v@.take(i as int)), fuel as nat).0,
            pairs_state(fault, stop, entries) == ev_pairs(rt0, e, pairs_v(v@.take(i as int)), fuel as nat).1,
        decreases v.len() - i,
    {
        proof {
            assert(v@.take(i + 1).drop_last() =~= v@.take(i as int));
            assert(v@.take(i + 1).last() == v@[i as int]);
            let s1 = pairs_v(v@.take(i + 1));
            assert(s1.drop_last() == pairs_v(v@.take(i as int)));
            assert(s1.last() == v@[i as int]@);
            assert(s1.last().key == v@[i as int].key@);
            assert(s1.last().value == v@[i as int].value@);
        }
        if fault.is_none() && stop.is_none() {
            let kr = eval_expr(&v[i].key, env, rt, fuel);
            match kr {
                Err(f) => {
                    fault = Some(f);
                },
                Ok(k) => {
                    if is_error(&k) {
                        stop = Some(k);
                    } else {
                        match k.hash_key() {
                            Err(m) => {
                                stop = Some(Object::Error(m));
                            },
                            Ok(hk) => {
                                let vr = eval_expr(&v[i].value, env, rt, fuel);
                                match vr {
                                    Err(f) => {
                                        fault = Some(f);
                                    },
                                    Ok(val) => {
                                        if is_error(&val) {
                                            stop = Some(val);
                                        } else {
                                            entries.insert(hk, crate::object::HashPair::new(k, val));
                                        }
                                    },
                                }
                            },
                        }
                    }
                },
            }
        }
        i = i + 1;
    }
    proof {
        assert(v@.take(v.len() as int) =~= v@);
    }
    match fault {
        Some(f) => Err(f),
        None => match stop {
            Some(o) => Ok(Err(o)),
            None => Ok(Ok(entries)),
        },
    }
}

/// Whether statements go on after one with this outcome: it did not fault, fail or return.
#[verifier::spinoff_prover]
fn goes_on(r: &Result<Object, Fault>) -> (b: bool)
    ensures
        b == (res_v(*r) matches Ok(v) && !(v is ReturnValue || v is Error)),
{
    match r {
        Ok(Object::ReturnValue(_)) => false,
        Ok(Object::Error(_)) => false,
        Ok(_) => true,
        Err(_) => false,
    }
}

#[verifier::spinoff_prover]
#[verifier::rlimit(40)]
fn eval_stmts(v: &Vec<Statement>, env: EnvironmentRef, rt: &mut Runtime, fuel: u64) -> (r: Result<Object, Fault>)
    ensures
        final(rt)@ == ev_stmts(old(rt)@, env.index as nat, stmts_v(v@), fuel as nat).0,
        res_v(r) == ev_stmts(old(rt)@, env.index as nat, stmts_v(v@), fuel as nat).1,
    decreases fuel, v, 2int,
{
    let ghost rt0 = rt@;
    let ghost e = env.index as nat;
    proof {
        assert(v@.take(0) =~= Seq::<Statement>::empty());
    }
    let mut res: Result<Object, Fault> = Ok(Object::Null);
    let mut i: usize = 0;
    while i < v.len()
        invariant
            i <= v.len(),
            e == env.index as nat,
            rt@ == ev_stmts(rt0, e, stmts_v(v@.take(i as int)), fuel as nat).0,
            res_v(res) == ev_stmts(rt0, e, stmts_v(v@.take(i as int)), fuel as nat).1,
        decreases v.len() - i,
    {
        proof {
            assert(v@.take(i + 1).drop_last() =~= v@.take(i as int));
            assert(v@.take(i + 1).last() == v@[i as int]);
            let s1 = stmts_v(v@.take(i + 1));
            assert(s1.drop_last() == stmts_v(v@.take(i as int)));
            assert(s1.last() == stmt_v(v@[i as int]));
        }
        let go = goes_on(&res);
        if go {
            res = eval_stmt(&v[i], env, rt, fuel);
        }
        i = i + 1;
    }
    proof {
        assert(v@.take(v.len() as int) =~= v@);
    }
    res
}

#[verifier::spinoff_prover]
fn eval_block(b: &BlockStatement, env: EnvironmentRef, rt: &mut Runtime, fuel: u64) -> (r: Result<Object, Fault>)
    ensures
        final(rt)@ == ev_block(old(rt)@, env.index as nat, b@, fuel as nat).0,
        res_v(r) == ev_block(old(rt)@, env.index as nat, b@, fuel as nat).1,
    decreases fuel, b, 2int,
{
    eval_stmts(&b.statements, env, rt, fuel)
}

#[verifier::spinoff_prover]
fn eval_stmt(s: &Statement, env: EnvironmentRef, rt: &mut Runtime, fuel: u64) -> (r: Result<Object, Fault>)
    ensures
        final(rt)@ == ev_stmt(old(rt)@, env.index as nat, s@, fuel as nat).0,
        res_v(r) == ev_stmt(old(rt)@, env.index as nat, s@, fuel as nat).1,
    decreases fuel, s, 2int,
{
    match s {
        Statement::Expression { expression, .. } => eval_expr(expression, env, rt, fuel),
        Statement::Block(b) => eval_block(b, env, rt, fuel),
        Statement::Return { value, .. } => {
            let r = eval_expr(value, env, rt, fuel);
            match r {
                Err(f) => Err(f),
                Ok(v) => {
                    if is_error(&v) {
                        Ok(v)
                    } else {
                        Ok(Object::ReturnValue(Box::new(v)))
                    }
                },
            }
        },
        Statement::Let { name, value, .. } => {
            let r = eval_expr(value, env, rt, fuel);
            match r {
                Err(f) => Err(f),
                Ok(v) => {
                    if is_error(&v) {
                        Ok(v)
                    } else {
                        Ok(rt.set(env, name.value.as_str(), v))
                    }
                },
            }
        },
    }
}

#[verifier::spinoff_prover]
fn eval_prefix_expr(e: &Expression, env: EnvironmentRef, rt: &mut Runtime, fuel: u64) -> (r: Result<Object, Fault>)
    requires
        e is PrefixExpr,
    ensures
        final(rt)@ == ev_expr(old(rt)@, env.index as nat, e@, fuel as nat).0,
        res_v(r) == ev_expr(old(rt)@, env.index as nat, e@, fuel as nat).1,
    decreases fuel, e, 1int,
{
    match e {
        Expression::PrefixExpr { operator, right, .. } => {
            let r = eval_expr(right, env, rt, fuel);
            match r {
                Err(f) => Err(f),
                Ok(v) => {
                    if is_error(&v) {
                        Ok(v)
                    } else {
                        eval_prefix(operator, v)
                    }
                },
            }
        },
        _ => Ok(Object::Null),
    }
}

#[verifier::spinoff_prover]
fn eval_infix_expr(e: &Expression, env: EnvironmentRef, rt: &mut Runtime, fuel: u64) -> (r: Result<Object, Fault>)
    requires
        e is InfixExpr,
    ensures
        final(rt)@ == ev_expr(old(rt)@, env.index as nat, e@, fuel as nat).0,
        res_v(r) == ev_expr(old(rt)@, env.index as nat, e@, fuel as nat).1,
    decreases fuel, e, 1int,
{
    match e {
        Expression::InfixExpr { left, operator, right, .. } => {
            let lr = eval_expr(left, env, rt, fuel);
            let l = match lr {
                Err(f) => {
                    return Err(f);
                },
                Ok(l) => l,
            };
            if is_error(&l) {
                return Ok(l);
            }
            let rr = eval_expr(right, env, rt, fuel);
            let r = match rr {
                Err(f) => {
                    return Err(f);
                },
                Ok(r) => r,
            };
            if is_error(&r) {
                return Ok(r);
            }
            eval_infix(operator, l, r)
        },
        _ => Ok(Object::Null),
    }
}

#[verifier::spinoff_prover]
fn eval_if(e: &Expression, env: EnvironmentRef, rt: &mut Runtime, fuel: u64) -> (r: Result<Object, Fault>)
    requires
        e is IfLiteral,
    ensures
        final(rt)@ == ev_expr(old(rt)@, env.index as nat, e@, fuel as nat).0,
        res_v(r) == ev_expr(old(rt)@, env.index as nat, e@, fuel as nat).1,
    decreases fuel, e, 1int,
{
    match e {
        Expression::IfLiteral { condition, consequence, alternative, .. } => {
            let cr = eval_expr(condition, env, rt, fuel);
            let c = match cr {
                Err(f) => {
                    return Err(f);
                },
                Ok(c) => c,
            };
            if is_error(&c) {
                Ok(c)
            } else if is_truthy(&c) {
                eval_block(consequence, env, rt, fuel)
            } else {
                match alternative {
                    Some(b) => eval_block(b, env, rt, fuel),
                    None => Ok(Object::Null),
                }
            }
        },
        _ => Ok(Object::Null),
    }
}

#[verifier::spinoff_prover]
fn eval_index_expr(e: &Expression, env: EnvironmentRef, rt: &mut Runtime, fuel: u64) -> (r: Result<Object, Fault>)
    requires
        e is IndexExpr,
    ensures
        final(rt)@ == ev_expr(old(rt)@, env.index as nat, e@, fuel as nat).0,
        res_v(r) == ev_expr(old(rt)@, env.index as nat, e@, fuel as nat).1,
    decreases fuel, e, 1int,
{
    match e {
        Expression::IndexExpr { left, index, .. } => {
            let lr = eval_expr(left, env, rt, fuel);
            let l = match lr {
                Err(f) => {
                    return Err(f);
                },
                Ok(l) => l,
            };
            if is_error(&l) {
                return Ok(l);
            }
            let ir = eval_expr(index, env, rt, fuel);
            let i = match ir {
                Err(f) => {
                    return Err(f);
                },
                Ok(i) => i,
            };
            if is_error(&i) {
                return Ok(i);
            }
            Ok(eval_index(l, i))
        },
        _ => Ok(Object::Null),
    }
}

#[verifier::spinoff_prover]
fn eval_collection(e: &Expression, env: EnvironmentRef, rt: &mut Runtime, fuel: u64) -> (r: Result<Object, Fault>)
    requires
        e is ArrayLiteral || e is HashLiteral,
    ensures
        final(rt)@ == ev_expr(old(rt)@, env.index as nat, e@, fuel as nat).0,
        res_v(r) == ev_expr(old(rt)@, env.index as nat, e@, fuel as nat).1,
    decreases fuel, e, 1int,
{
    match e {
        Expression::ArrayLiteral { elements, .. } => {
            let r = eval_exprs(elements, env, rt, fuel);
            match r {
                Err(f) => Err(f),
                Ok(vals) => {
                    proof {
                        lemma_objs_v(vals@);
                    }
                    if vals.len() == 1 && is_error(&vals[0]) {
                        Ok(vals[0].duplicate())
                    } else {
                        Ok(Object::Array(vals))
                    }
                },
            }
        },
        Expression::HashLiteral { pairs, .. } => {
            let r = eval_pairs(pairs, env, rt, fuel);
            match r {
                Err(f) => Err(f),
                Ok(Err(o)) => Ok(o),
                Ok(Ok(h)) => Ok(Object::Hash(h)),
            }
        },
        _ => Ok(Object::Null),
    }
}

#[verifier::spinoff_prover]
#[verifier::rlimit(40)]
fn eval_call(e: &Expression, env: EnvironmentRef, rt: &mut Runtime, fuel: u64) -> (r: Result<Object, Fault>)
    requires
        e is CallExpr,
    ensures
        final(rt)@ == ev_call(old(rt)@, env.index as nat, e@, fuel as nat).0,
        res_v(r) == ev_call(old(rt)@, env.index as nat, e@, fuel as nat).1,
    decreases fuel, e, 1int,
{
    match e {
        Expression::CallExpr { function, arguments, .. } => {
            let lit = function.token_literal();
            proof {
                lemma_exprs_v(arguments@);
            }
            if same_text(&lit, "quote") {
                if arguments.len() != 1 {
                    return Ok(arity_error(arguments.len(), 1));
                }
                let mut st: Option<Halt> = None;
                let x = rewrite_expr(Mode::Unquote, &arguments[0], env, rt, &mut st, fuel);
                match st {
                    Some(Halt::Faulted(f)) => Err(f),
                    _ => Ok(Object::Quote(x)),
                }
            } else {
                let fr = eval_expr(function, env, rt, fuel);
                let fv = match fr {
                    Err(f) => {
                        return Err(f);
                    },
                    Ok(v) => v,
                };
                if is_error(&fv) {
                    return Ok(fv);
                }
                let ar = eval_exprs(arguments, env, rt, fuel);
                let args = match ar {
                    Err(f) => {
                        return Err(f);
                    },
                    Ok(a) => a,
                };
                proof {
                    lemma_objs_v(args@);
                }
                if args.len() == 1 && is_error(&args[0]) {
                    return Ok(args[0].duplicate());
                }
                match fv {
                    Object::Function { parameters, body, env: fenv } => {
                        if fuel == 0 {
                            return Err(Fault::Exhausted);
                        }
                        let n = rt.add_enclosed(fenv);
                        bind_args(rt, n, &parameters, &args);
                        let r = eval_block(&body, n, rt, fuel - 1);
                        match r {
                            Err(f) => Err(f),
                            Ok(v) => Ok(unwrap_returned(v)),
                        }
                    },
                    Object::Builtin(b) => Ok(apply_builtin(b, args, rt)),
                    other => Ok(type_error("not a function: ", other.object_type())),
                }
            }
        },
        _ => Ok(Object::Null),
    }
}

/// Evaluates an expression in scope `env`.
#[verifier::spinoff_prover]
pub(crate) fn eval_expr(e: &Expression, env: EnvironmentRef, rt: &mut Runtime, fuel: u64) -> (r: Result<Object, Fault>)
    ensures
        final(rt)@ == ev_expr(old(rt)@, env.index as nat, e@, fuel as nat).0,
        res_v(r) == ev_expr(old(rt)@, env.index as nat, e@, fuel as nat).1,
    decreases fuel, e, 2int,
{
    match e {
        Expression::Identifier(id) => Ok(eval_ident(id, env, rt)),
        Expression::IntegerLiteral { value, .. } => Ok(Object::Integer(*value)),
        Expression::BooleanLiteral { value, .. } => Ok(Object::Boolean(*value)),
        Expression::PrefixExpr { .. } => eval_prefix_expr(e, env, rt, fuel),
        Expression::InfixExpr { .. } => eval_infix_expr(e, env, rt, fuel),
        Expression::IfLiteral { .. } => eval_if(e, env, rt, fuel),
        Expression::FunctionLiteral { parameters, body, .. } => Ok(
            Object::Function { parameters: crate::ast::copy_idents(parameters), body: body.duplicate(), env },
        ),
        Expression::CallExpr { .. } => eval_call(e, env, rt, fuel),
        Expression::StringLiteral { value, .. } => Ok(Object::String(value.clone())),
        Expression::ArrayLiteral { .. } => eval_collection(e, env, rt, fuel),
        Expression::IndexExpr { .. } => eval_index_expr(e, env, rt, fuel),
        Expression::HashLiteral { .. } => eval_collection(e, env, rt, fuel),
        Expression::MacroLiteral { parameters, body, .. } => Ok(
            Object::Macro { parameters: crate::ast::copy_idents(parameters), body: body.duplicate(), env },
        ),
    }
}

// ---------------------------------------------------------------------------
// Rewriting the tree: unquoting and macro expansion
// ---------------------------------------------------------------------------

/// Why a rewrite of the tree stopped.
#[derive(Debug, PartialEq, Eq)]
pub enum Halt {
    Failed(String),
    Faulted(Fault),
}

/// The abstract value of a rewrite's progress.
pub open spec fn status_v(h: Option<Halt>) -> Status {
    match h {
        None => Status::Going,
        Some(Halt::Failed(m)) => Status::Failed(m@),
        Some(Halt::Faulted(f)) => Status::Faulted(f),
    }
}

#[verifier::spinoff_prover]
fn is_candidate(mode: Mode, rt: &Runtime, st: &Option<Halt>, env: EnvironmentRef, e: &Expression) -> (b: bool)
    ensures
        b == candidate(mode, rt@, status_v(*st), env.index as nat, e@),
{
    if st.is_some() {
        return false;
    }
    match e {
        Expression::CallExpr { function, arguments, .. } => match &**function {
            Expression::Identifier(id) => match mode {
                Mode::Unquote => {
                    proof {
                        lemma_exprs_v(arguments@);
                        assert(expr_v(**function) == SExpr::Identifier(id@));
                    }
                    same_text(&id.value, "unquote") && arguments.len() == 1
                },
                Mode::Expand => {
                    let found = rt.get(env, id.value.as_str());
                    match found {
                        Some(Object::Macro { .. }) => true,
                        Some(o) => {
                            assert(!(obj_v(o) is Macro));
                            false
                        },
                        None => false,
                    }
                },
            },
            _ => false,
        },
        _ => false,
    }
}

#[verifier::spinoff_prover]
fn macro_result(v: Object) -> (r: Result<Expression, String>)
    ensures
        match r {
            Ok(x) => macro_outcome(v@) == Ok::<SExpr, Seq<char>>(x@),
            Err(m) => macro_outcome(v@) == Err::<SExpr, Seq<char>>(m@),
        },
{
    let u = unwrap_returned(v);
    match u {
        Object::Quote(x) => Ok(x),
        Object::Error(m) => Err(m),
        other => {
            let mut m = owned("macro must return QUOTE, got ");
            let t = other.object_type().name();
            push_str(&mut m, t.as_str());
            Err(m)
        },
    }
}

#[verifier::spinoff_prover]
fn quote_all(v: &Vec<Expression>) -> (r: Vec<Object>)
    ensures
        objs_v(r@) == exprs_v(v@).map_values(|a: SExpr| SObject::Quote(a)),
{
    proof {
        lemma_exprs_v(v@);
    }
    let mut r: Vec<Object> = Vec::new();
    let mut i: usize = 0;
    while i < v.len()
        invariant
            i <= v.len(),
            r@.len() == i,
            exprs_v(v@).len() == v@.len(),
            forall|j: int| 0 <= j < v@.len() ==> #[trigger] exprs_v(v@)[j] == expr_v(v@[j]),
            forall|j: int| 0 <= j < i ==> #[trigger] obj_v(r@[j]) == SObject::Quote(expr_v(v@[j])),
        decreases v.len() - i,
    {
        r.push(Object::Quote(v[i].duplicate()));
        i = i + 1;
    }
    proof {
        lemma_objs_v(r@);
        assert(objs_v(r@) =~= exprs_v(v@).map_values(|a: SExpr| SObject::Quote(a)));
    }
    r
}

#[verifier::spinoff_prover]
pub(crate) fn finish_unquote(e: Expression, r: Result<Object, Fault>, st: &mut Option<Halt>) -> (x: Expression)
    requires
        *old(st) is None,
    ensures
        status_v(*final(st)) == unquoted(e@, res_v(r)).0,
        x@ == unquoted(e@, res_v(r)).1,
{
    match r {
        Err(f) => {
            *st = Some(Halt::Faulted(f));
            e
        },
        Ok(v) => match object_to_ast(v) {
            Some(x) => x,
            None => e,
        },
    }
}

#[verifier::spinoff_prover]
fn finish_expand(e: Expression, r: Result<Object, Fault>, st: &mut Option<Halt>) -> (x: Expression)
    requires
        *old(st) is None,
    ensures
        status_v(*final(st)) == expanded(e@, res_v(r)).0,
        x@ == expanded(e@, res_v(r)).1,
{
    match r {
        Err(f) => {
            *st = Some(Halt::Faulted(f));
            e
        },
        Ok(v) => match macro_result(v) {
            Ok(x) => x,
            Err(m) => {
                *st = Some(Halt::Failed(m));
                e
            },
        },
    }
}

#[verifier::spinoff_prover]
fn unquote_call(e: Expression, env: EnvironmentRef, rt: &mut Runtime, st: &mut Option<Halt>, fuel: u64) -> (r: Expression)
    requires
        *old(st) is None,
    ensures
        final(rt)@ == rw_unquote(old(rt)@, env.index as nat, e@, fuel as nat).0,
        status_v(*final(st)) == rw_unquote(old(rt)@, env.index as nat, e@, fuel as nat).1,
        r@ == rw_unquote(old(rt)@, env.index as nat, e@, fuel as nat).2,
    decreases fuel, e, 1int,
{
    let ghost rt0 = rt@;
    let ghost en = env.index as nat;
    let ghost ev = e@;
    match &e {
        Expression::CallExpr { arguments, .. } => {
            proof {
                lemma_exprs_first(arguments@);
            }
            if arguments.len() == 1 {
                if fuel == 0 {
                    proof {
                        lemma_unquote_exhausted(rt0, en, ev);
                    }
                    *st = Some(Halt::Faulted(Fault::Exhausted));
                    return e;
                }
                let r = eval_expr(&arguments[0], env, rt, fuel - 1);
                proof {
                    lemma_unquote_step(rt0, en, ev, fuel as nat, rt@, res_v(r));
                }
                return finish_unquote(e, r, st);
            }
        },
        _ => {},
    }
    proof {
        lemma_unquote_skip(rt0, en, ev, fuel as nat);
    }
    e
}

#[verifier::spinoff_prover]
fn callee_of(e: &Expression, env: EnvironmentRef, rt: &Runtime) -> (r: Option<Object>)
    ensures
        opt_v(r) == callee(rt@, env.index as nat, e@),
{
    match e {
        Expression::CallExpr { function, .. } => match &**function {
            Expression::Identifier(id) => {
                proof {
                    assert(expr_v(**function) == SExpr::Identifier(id@));
                }
                rt.get(env, id.value.as_str())
            },
            _ => None,
        },
        _ => None,
    }
}

#[verifier::spinoff_prover]
fn args_len(e: &Expression) -> (n: usize)
    ensures
        n == call_args(e@).len(),
{
    match e {
        Expression::CallExpr { arguments, .. } => {
            proof {
                lemma_exprs_first(arguments@);
            }
            arguments.len()
        },
        _ => 0,
    }
}

#[verifier::spinoff_prover]
fn macro_frame(rt: &mut Runtime, denv: EnvironmentRef, parameters: &Vec<Identifier>, e: &Expression) -> (n: EnvironmentRef)
    requires
        parameters@.len() == call_args(e@).len(),
    ensures
        n.index == old(rt)@.envs.len(),
        final(rt)@ == macro_scope(old(rt)@, denv.index as nat, idents_v(parameters@), call_args(e@)),
{
    let n = rt.add_enclosed(denv);
    match e {
        Expression::CallExpr { arguments, .. } => {
            proof {
                lemma_exprs_first(arguments@);
            }
            let quotes = quote_all(arguments);
            proof {
                lemma_objs_v(quotes@);
            }
            bind_args(rt, n, parameters, &quotes);
        },
        _ => {
            let quotes: Vec<Object> = Vec::new();
            proof {
                assert(objs_v(quotes@) =~= Seq::<SExpr>::empty().map_values(|a: SExpr| SObject::Quote(a)));
            }
            bind_args(rt, n, parameters, &quotes);
        },
    }
    n
}

#[verifier::spinoff_prover]
fn expand_call(e: Expression, env: EnvironmentRef, rt: &mut Runtime, st: &mut Option<Halt>, fuel: u64) -> (r: Expression)
    requires
        *old(st) is None,
    ensures
        final(rt)@ == rw_expand(old(rt)@, env.index as nat, e@, fuel as nat).0,
        status_v(*final(st)) == rw_expand(old(rt)@, env.index as nat, e@, fuel as nat).1,
        r@ == rw_expand(old(rt)@, env.index as nat, e@, fuel as nat).2,
    decreases fuel, e, 1int,
{
    let ghost rt0 = rt@;
    let ghost en = env.index as nat;
    let ghost ev = e@;
    let found = callee_of(&e, env, rt);
    match found {
        Some(Object::Macro { parameters, body, env: denv }) => {
            let ghost ps = idents_v(parameters@);
            let ghost bv = body@;
            let nargs = args_len(&e);
            if parameters.len() != nargs || fuel == 0 {
                proof {
                    lemma_expand_stop(rt0, en, ev, fuel as nat, ps, bv, denv.index as nat);
                }
                if parameters.len() != nargs {
                    *st = Some(Halt::Failed(arity_text(nargs, parameters.len())));
                } else {
                    *st = Some(Halt::Faulted(Fault::Exhausted));
                }
                return e;
            }
            let n = macro_frame(rt, denv, &parameters, &e);
            let r = eval_block(&body, n, rt, fuel - 1);
            proof {
                lemma_expand_step(rt0, en, ev, fuel as nat, ps, bv, denv.index as nat, rt@, res_v(r));
            }
            finish_expand(e, r, st)
        },
        other => {
            proof {
                if let Some(o) = other {
                    assert(!(obj_v(o) is Macro));
                }
                lemma_expand_skip(rt0, en, ev, fuel as nat);
            }
            e
        },
    }
}

#[verifier::spinoff_prover]
#[verifier::rlimit(40)]
fn rewrite_exprs(
    mode: Mode,
    v: &Vec<Expression>,
    env: EnvironmentRef,
    rt: &mut Runtime,
    st: &mut Option<Halt>,
    fuel: u64,
) -> (r: Vec<Expression>)
    ensures
        final(rt)@ == rw_exprs(mode, old(rt)@, status_v(*old(st)), env.index as nat, exprs_v(v@), fuel as nat).0,
        status_v(*final(st)) == rw_exprs(mode, old(rt)@, status_v(*old(st)), env.index as nat, exprs_v(v@), fuel as nat).1,
        exprs_v(r@) == rw_exprs(mode, old(rt)@, status_v(*old(st)), env.index as nat, exprs_v(v@), fuel as nat).2,
    decreases fuel, v, 2int,
{
    let ghost rt0 = rt@;
    let ghost st0 = status_v(*st);
    let ghost en = env.index as nat;
    proof {
        assert(v@.take(0) =~= Seq::<Expression>::empty());
    }
    let mut r: Vec<Expression> = Vec::new();
    let mut k: usize = 0;
    while k < v.len()
        invariant
            k <= v.len(),
            en == env.index as nat,
            rt@ == rw_exprs(mode, rt0, st0, en, exprs_v(v@.take(k as int)), fuel as nat).0,
            status_v(*st) == rw_exprs(mode, rt0, st0, en, exprs_v(v@.take(k as int)), fuel as nat).1,
            exprs_v(r@) == rw_exprs(mode, rt0, st0, en, exprs_v(v@.take(k as int)), fuel as nat).2,
        decreases v.len() - k,
    {
        proof {
            assert(v@.take(k + 1).drop_last() =~= v@.take(k as int));
            assert(v@.take(k + 1).last() == v@[k as int]);
            let s1 = exprs_v(v@.take(k + 1));
            assert(s1.drop_last() == exprs_v(v@.take(k as int)));
            assert(s1.last() == v@[k as int]@);
        }
        let y = rewrite_expr(mode, &v[k], env, rt, st, fuel);
        let ghost old_r = r@;
        r.push(y);
        proof {
            assert(r@.drop_last() =~= old_r);
            assert(exprs_v(r@) == exprs_v(old_r).push(y@));
        }
        k = k + 1;
    }
    proof {
        assert(v@.take(v.len() as int) =~= v@);
    }
    r
}

#[verifier::spinoff_prover]
#[verifier::rlimit(40)]
fn rewrite_pairs(
    mode: Mode,
    v: &Vec<HashPair>,
    env: EnvironmentRef,
    rt: &mut Runtime,
    st: &mut Option<Halt>,
    fuel: u64,
) -> (r: Vec<HashPair>)
    ensures
        final(rt)@ == rw_pairs(mode, old(rt)@, status_v(*old(st)), env.index as nat, pairs_v(v@), fuel as nat).0,
        status_v(*final(st)) == rw_pairs(mode, old(rt)@, status_v(*old(st)), env.index as nat, pairs_v(v@), fuel as nat).1,
        pairs_v(r@) == rw_pairs(mode, old(rt)@, status_v(*old(st)), env.index as nat, pairs_v(v@), fuel as nat).2,
    decreases fuel, v, 2int,
{
    let ghost rt0 = rt@;
    let ghost st0 = status_v(*st);
    let ghost en = env.index as nat;
    proof {
        assert(v@.take(0) =~= Seq::<HashPair>::empty());
    }
    let mut r: Vec<HashPair> = Vec::new();
    let mut k: usize = 0;
    while k < v.len()
        invariant
            k <= v.len(),
            en == env.index as nat,
            rt@ == rw_pairs(mode, rt0, st0, en, pairs_v(v@.take(k as int)), fuel as nat).0,
            status_v(*st) == rw_pairs(mode, rt0, st0, en, pairs_v(v@.take(k as int)), fuel as nat).1,
            pairs_v(r@) == rw_pairs(mode, rt0, st0, en, pairs_v(v@.take(k as int)), fuel as nat).2,
        decreases v.len() - k,
    {
        proof {
            assert(v@.take(k + 1).drop_last() =~= v@.take(k as int));
            assert(v@.take(k + 1).last() == v@[k as int]);
            let s1 = pairs_v(v@.take(k + 1));
            assert(s1.drop_last() == pairs_v(v@.take(k as int)));
            assert(s1.last() == v@[k as int]@);
        }
        let key = rewrite_expr(mode, &v[k].key, env, rt, st, fuel);
        let value = rewrite_expr(mode, &v[k].value, env, rt, st, fuel);
        let y = HashPair { key, value };
        let ghost old_r = r@;
        r.push(y);
        proof {
            assert(r@.drop_last() =~= old_r);
            assert(pairs_v(r@) == pairs_v(old_r).push(y@));
        }
        k = k + 1;
    }
    proof {
        assert(v@.take(v.len() as int) =~= v@);
    }
    r
}

#[verifier::spinoff_prover]
#[verifier::rlimit(40)]
pub(crate) fn rewrite_stmts(
    mode: Mode,
    v: &Vec<Statement>,
    env: EnvironmentRef,
    rt: &mut Runtime,
    st: &mut Option<Halt>,
    fuel: u64,
) -> (r: Vec<Statement>)
    ensures
        final(rt)@ == rw_stmts(mode, old(rt)@, status_v(*old(st)), env.index as nat, stmts_v(v@), fuel as nat).0,
        status_v(*final(st)) == rw_stmts(mode, old(rt)@, status_v(*old(st)), env.index as nat, stmts_v(v@), fuel as nat).1,
        stmts_v(r@) == rw_stmts(mode, old(rt)@, status_v(*old(st)), env.index as nat, stmts_v(v@), fuel as nat).2,
    decreases fuel, v, 2int,
{
    let ghost rt0 = rt@;
    let ghost st0 = status_v(*st);
    let ghost en = env.index as nat;
    proof {
        assert(v@.take(0) =~= Seq::<Statement>::empty());
    }
    let mut r: Vec<Statement> = Vec::new();
    let mut k: usize = 0;
    while k < v.len()
        invariant
            k <= v.len(),
            en == env.index as nat,
            rt@ == rw_stmts(mode, rt0, st0, en, stmts_v(v@.take(k as int)), fuel as nat).0,
            status_v(*st) == rw_stmts(mode, rt0, st0, en, stmts_v(v@.take(k as int)), fuel as nat).1,
            stmts_v(r@) == rw_stmts(mode, rt0, st0, en, stmts_v(v@.take(k as int)), fuel as nat).2,
        decreases v.len() - k,
    {
        proof {
            assert(v@.take(k + 1).drop_last() =~= v@.take(k as int));
            assert(v@.take(k + 1).last() == v@[k as int]);
            let s1 = stmts_v(v@.take(k + 1));
            assert(s1.drop_last() == stmts_v(v@.take(k as int)));
            assert(s1.last() == v@[k as int]@);
        }
        let y = rewrite_stmt(mode, &v[k], env, rt, st, fuel);
        let ghost old_r = r@;
        r.push(y);
        proof {
            assert(r@.drop_last() =~= old_r);
            assert(stmts_v(r@) == stmts_v(old_r).push(y@));
        }
        k = k + 1;
    }
    proof {
        assert(v@.take(v.len() as int) =~= v@);
    }
    r
}

#[verifier::spinoff_prover]
fn rewrite_block(
    mode: Mode,
    b: &BlockStatement,
    env: EnvironmentRef,
    rt: &mut Runtime,
    st: &mut Option<Halt>,
    fuel: u64,
) -> (r: BlockStatement)
    ensures
        final(rt)@ == rw_block(mode, old(rt)@, status_v(*old(st)), env.index as nat, b@, fuel as nat).0,
        status_v(*final(st)) == rw_block(mode, old(rt)@, status_v(*old(st)), env.index as nat, b@, fuel as nat).1,
        r@ == rw_block(mode, old(rt)@, status_v(*old(st)), env.index as nat, b@, fuel as nat).2,
    decreases fuel, b, 2int,
{
    let statements = rewrite_stmts(mode, &b.statements, env, rt, st, fuel);
    BlockStatement { token: b.token.duplicate(), statements }
}

#[verifier::spinoff_prover]
#[verifier::rlimit(40)]
fn rewrite_stmt(
    mode: Mode,
    s: &Statement,
    env: EnvironmentRef,
    rt: &mut Runtime,
    st: &mut Option<Halt>,
    fuel: u64,
) -> (r: Statement)
    ensures
        final(rt)@ == rw_stmt(mode, old(rt)@, status_v(*old(st)), env.index as nat, s@, fuel as nat).0,
        status_v(*final(st)) == rw_stmt(mode, old(rt)@, status_v(*old(st)), env.index as nat, s@, fuel as nat).1,
        r@ == rw_stmt(mode, old(rt)@, status_v(*old(st)), env.index as nat, s@, fuel as nat).2,
    decreases fuel, s, 2int,
{
    match s {
        Statement::Let { token, name, value } => {
            let value = rewrite_expr(mode, value, env, rt, st, fuel);
            Statement::Let { token: token.duplicate(), name: name.duplicate(), value }
        },
        Statement::Return { token, value } => {
            let value = rewrite_expr(mode, value, env, rt, st, fuel);
            Statement::Return { token: token.duplicate(), value }
        },
        Statement::Expression { token, expression } => {
            let expression = rewrite_expr(mode, expression, env, rt, st, fuel);
            Statement::Expression { token: token.duplicate(), expression }
        },
        Statement::Block(b) => Statement::Block(rewrite_block(mode, b, env, rt, st, fuel)),
    }
}

#[verifier::spinoff_prover]
#[verifier::rlimit(60)]
fn rewrite_expr(
    mode: Mode,
    e: &Expression,
    env: EnvironmentRef,
    rt: &mut Runtime,
    st: &mut Option<Halt>,
    fuel: u64,
) -> (r: Expression)
    ensures
        final(rt)@ == rw_expr(mode, old(rt)@, status_v(*old(st)), env.index as nat, e@, fuel as nat).0,
        status_v(*final(st)) == rw_expr(mode, old(rt)@, status_v(*old(st)), env.index as nat, e@, fuel as nat).1,
        r@ == rw_expr(mode, old(rt)@, status_v(*old(st)), env.index as nat, e@, fuel as nat).2,
    decreases fuel, e, 2int,
{
    match e {
        Expression::PrefixExpr { token, operator, right } => {
            let r = rewrite_expr(mode, right, env, rt, st, fuel);
            Expression::PrefixExpr { token: token.duplicate(), operator: operator.clone(), right: Box::new(r) }
        },
        Expression::InfixExpr { token, left, operator, right } => {
            let l = rewrite_expr(mode, left, env, rt, st, fuel);
            let r = rewrite_expr(mode, right, env, rt, st, fuel);
            Expression::InfixExpr {
                token: token.duplicate(),
                left: Box::new(l),
                operator: operator.clone(),
                right: Box::new(r),
            }
        },
        Expression::IfLiteral { token, condition, consequence, alternative } => {
            let c = rewrite_expr(mode, condition, env, rt, st, fuel);
            let cons = rewrite_block(mode, consequence, env, rt, st, fuel);
            let alt = match alternative {
                Some(b) => Some(rewrite_block(mode, b, env, rt, st, fuel)),
                None => None,
            };
            Expression::IfLiteral {
                token: token.duplicate(),
                condition: Box::new(c),
                consequence: cons,
                alternative: alt,
            }
        },
        Expression::FunctionLiteral { token, parameters, body } => {
            let body = rewrite_block(mode, body, env, rt, st, fuel);
            let ps = crate::ast::copy_idents(parameters);
            Expression::FunctionLiteral { token: token.duplicate(), parameters: ps, body }
        },
        Expression::CallExpr { token, function, arguments } => {
            let f = rewrite_expr(mode, function, env, rt, st, fuel);
            let args = rewrite_exprs(mode, arguments, env, rt, st, fuel);
            let call = Expression::CallExpr { token: token.duplicate(), function: Box::new(f), arguments: args };
            if is_candidate(mode, rt, st, env, &call) {
                if fuel == 0 {
                    *st = Some(Halt::Faulted(Fault::Exhausted));
                    call
                } else {
                    match mode {
                        Mode::Unquote => unquote_call(call, env, rt, st, fuel - 1),
                        Mode::Expand => expand_call(call, env, rt, st, fuel - 1),
                    }
                }
            } else {
                call
            }
        },
        Expression::ArrayLiteral { token, elements } => {
            let els = rewrite_exprs(mode, elements, env, rt, st, fuel);
            Expression::ArrayLiteral { token: token.duplicate(), elements: els }
        },
        Expression::IndexExpr { token, left, index } => {
            let l = rewrite_expr(mode, left, env, rt, st, fuel);
            let i = rewrite_expr(mode, index, env, rt, st, fuel);
            Expression::IndexExpr { token: token.duplicate(), left: Box::new(l), index: Box::new(i) }
        },
        Expression::HashLiteral { token, pairs } => {
            let ps = rewrite_pairs(mode, pairs, env, rt, st, fuel);
            Expression::HashLiteral { token: token.duplicate(), pairs: ps }
        },
        _ => e.duplicate(),
    }
}

// ---------------------------------------------------------------------------
// Running programs
// ---------------------------------------------------------------------------

/// Evaluates a program in scope `env`: its statements in order until one returns or fails,
/// a returned value unwrapped; a fault is reported where the interpreter cannot go on.
#[verifier::spinoff_prover]
pub fn try_eval(program: &Program, env: EnvironmentRef, runtime: &mut Runtime) -> (r: Result<Object, Fault>)
    ensures
        final(runtime)@ == ev_program(old(runtime)@, env.index as nat, program@, STEPS as nat).0,
        res_v(r) == ev_program(old(runtime)@, env.index as nat, program@, STEPS as nat).1,
{
    let r = eval_stmts(&program.statements, env, runtime, STEPS);
    match r {
        Err(f) => Err(f),
        Ok(v) => Ok(unwrap_returned(v)),
    }
}

/// Evaluates a program in scope `env`, where the evaluation does not fault.
#[verifier::spinoff_prover]
pub fn eval(program: Program, env: EnvironmentRef, runtime: &mut Runtime) -> (r: Object)
    requires
        ev_program(old(runtime)@, env.index as nat, program@, STEPS as nat).1 is Ok,
    ensures
        final(runtime)@ == ev_program(old(runtime)@, env.index as nat, program@, STEPS as nat).0,
        Ok::<SObject, Fault>(r@) == ev_program(old(runtime)@, env.index as nat, program@, STEPS as nat).1,
{
    match try_eval(&program, env, runtime) {
        Ok(o) => o,
        Err(_) => Object::Null,
    }
}

} // verus!
