use vstd::prelude::*;

use crate::ast::{
    exprs_v, expr_v, idents_v, lemma_exprs_v, lemma_pairs_v, lemma_stmts_v, pairs_v, stmt_v, stmts_v,
    BlockStatement, Expression, HashPair, Identifier, Program, SBlock, SExpr, SIdent, SPair, SStmt, Statement,
};
use crate::text::{i64_text, int_text, push_char, push_str};

verus! {

// ---------------------------------------------------------------------------
// Source text of the syntax tree
// ---------------------------------------------------------------------------

/// How a boolean is written.
pub open spec fn bool_text(b: bool) -> Seq<char> {
    if b { "true"@ } else { "false"@ }
}

/// The text of an expression, as the program prints it.
pub open spec fn expr_str(e: SExpr) -> Seq<char>
    decreases e,
{
    match e {
        SExpr::Identifier(i) => i.value,
        SExpr::IntegerLiteral { value, .. } => int_text(value as int),
        SExpr::PrefixExpr { operator, right, .. } => seq!['('] + operator + expr_str(*right) + seq![')'],
        SExpr::InfixExpr { left, operator, right, .. } => seq!['('] + expr_str(*left) + seq![' ']
            + operator + seq![' '] + expr_str(*right) + seq![')'],
        SExpr::BooleanLiteral { value, .. } => bool_text(value),
        SExpr::IfLiteral { condition, consequence, alternative, .. } => "if "@ + expr_str(*condition)
            + seq![' '] + block_str(consequence) + match alternative {
            Some(alt) => " else "@ + block_str(alt),
            None => Seq::empty(),
        },
        SExpr::FunctionLiteral { parameters, body, .. } => "fn("@ + join_idents(parameters) + ") "@
            + block_str(body),
        SExpr::CallExpr { function, arguments, .. } => expr_str(*function) + seq!['('] + join_exprs(
            arguments,
        ) + seq![')'],
        SExpr::StringLiteral { value, .. } => seq!['"'] + value + seq!['"'],
        SExpr::ArrayLiteral { elements, .. } => seq!['['] + join_exprs(elements) + seq![']'],
        SExpr::IndexExpr { left, index, .. } => seq!['('] + expr_str(*left) + ")["@ + expr_str(*index)
            + seq![']'],
        SExpr::HashLiteral { pairs, .. } => seq!['{'] + join_pairs(pairs) + seq!['}'],
        SExpr::MacroLiteral { token, parameters, body } => token.text + seq!['('] + join_idents(
            parameters,
        ) + ") "@ + block_str(body),
    }
}

/// The texts of expressions, separated by `", "`.
pub open spec fn join_exprs(s: Seq<SExpr>) -> Seq<char>
    decreases s,
{
    if s.len() == 0 {
        Seq::empty()
    } else if s.len() == 1 {
        expr_str(s[0])
    } else {
        join_exprs(s.drop_last()) + ", "@ + expr_str(s.last())
    }
}

/// The texts of the pairs of a hash literal, as `key: value`, separated by `", "`.
pub open spec fn join_pairs(s: Seq<SPair>) -> Seq<char>
    decreases s,
{
    if s.len() == 0 {
        Seq::empty()
    } else if s.len() == 1 {
        expr_str(s[0].key) + ": "@ + expr_str(s[0].value)
    } else {
        join_pairs(s.drop_last()) + ", "@ + expr_str(s.last().key) + ": "@ + expr_str(s.last().value)
    }
}

/// The names of identifiers, separated by `", "`.
pub open spec fn join_idents(s: Seq<SIdent>) -> Seq<char>
    decreases s.len(),
{
    if s.len() == 0 {
        Seq::empty()
    } else if s.len() == 1 {
        s[0].value
    } else {
        join_idents(s.drop_last()) + ", "@ + s.last().value
    }
}

/// The text of a statement, as the program prints it.
pub open spec fn stmt_str(s: SStmt) -> Seq<char>
    decreases s,
{
    match s {
        SStmt::Let { token, name, value } => token.text + seq![' '] + name.value + " = "@ + expr_str(
            value,
        ) + seq![';'],
        SStmt::Return { token, value } => token.text + seq![' '] + expr_str(value) + seq![';'],
        SStmt::Expression { expression, .. } => expr_str(expression),
        SStmt::Block(b) => block_str(b),
    }
}

/// The texts of statements, one after another.
pub open spec fn stmts_str(s: Seq<SStmt>) -> Seq<char>
    decreases s,
{
    if s.len() == 0 {
        Seq::empty()
    } else {
        stmts_str(s.drop_last()) + stmt_str(s.last())
    }
}

/// The text of a block: the texts of its statements.
pub open spec fn block_str(b: SBlock) -> Seq<char>
    decreases b,
{
    stmts_str(b.statements)
}

pub(crate) fn write_idents(v: &Vec<Identifier>, out: &mut String)
    ensures
        final(out)@ == old(out)@ + join_idents(idents_v(v@)),
{
    let ghost sv = idents_v(v@);
    let ghost base = out@;
    let mut i: usize = 0;
    while i < v.len()
        invariant
            i <= v.len(),
            sv == idents_v(v@),
            out@ == base + join_idents(sv.take(i as int)),
        decreases v.len() - i,
    {
        proof {
            assert(sv.take(i + 1).drop_last() =~= sv.take(i as int));
            assert(sv.take(i + 1).last() == sv[i as int]);
        }
        if i > 0 {
            push_str(out, ", ");
        }
        push_str(out, v[i].value.as_str());
        proof {
            if i == 0 {
                assert(sv.take(1)[0] == sv[0]);
            }
        }
        i = i + 1;
    }
    proof {
        assert(sv.take(v.len() as int) =~= sv);
    }
}

fn write_exprs(v: &Vec<Expression>, out: &mut String)
    ensures
        final(out)@ == old(out)@ + join_exprs(exprs_v(v@)),
    decreases v, 1int,
{
    let ghost sv = exprs_v(v@);
    let ghost base = out@;
    proof {
        lemma_exprs_v(v@);
    }
    let mut i: usize = 0;
    while i < v.len()
        invariant
            i <= v.len(),
            sv == exprs_v(v@),
            sv.len() == v@.len(),
            forall|j: int| 0 <= j < v@.len() ==> #[trigger] sv[j] == expr_v(v@[j]),
            out@ == base + join_exprs(sv.take(i as int)),
        decreases v.len() - i,
    {
        proof {
            assert(sv.take(i + 1).drop_last() =~= sv.take(i as int));
            assert(sv.take(i + 1).last() == sv[i as int]);
            if i == 0 {
                assert(sv.take(1)[0] == sv[0]);
            }
        }
        if i > 0 {
            push_str(out, ", ");
        }
        write_expr(&v[i], out);
        i = i + 1;
    }
    proof {
        assert(sv.take(v.len() as int) =~= sv);
    }
}

proof fn lemma_join_pairs_step(sv: Seq<SPair>, i: int)
    requires
        0 <= i < sv.len(),
    ensures
        join_pairs(sv.take(i + 1)) == join_pairs(sv.take(i)) + (if i > 0 {
            ", "@
        } else {
            Seq::empty()
        }) + (expr_str(sv[i].key) + ": "@ + expr_str(sv[i].value)),
{
    let t = sv.take(i + 1);
    assert(t.drop_last() =~= sv.take(i));
    assert(t.last() == sv[i]);
    if i == 0 {
        assert(t[0] == sv[0]);
        assert(sv.take(0) =~= Seq::<SPair>::empty());
        assert(join_pairs(t) =~= Seq::<char>::empty() + Seq::<char>::empty() + (expr_str(sv[i].key)
            + ": "@ + expr_str(sv[i].value)));
    } else {
        assert(join_pairs(t) =~= join_pairs(sv.take(i)) + ", "@ + (expr_str(sv[i].key) + ": "@
            + expr_str(sv[i].value)));
    }
}

fn write_pairs(v: &Vec<HashPair>, out: &mut String)
    ensures
        final(out)@ == old(out)@ + join_pairs(pairs_v(v@)),
    decreases v, 1int,
{
    let ghost sv = pairs_v(v@);
    let ghost base = out@;
    proof {
        lemma_pairs_v(v@);
    }
    let mut i: usize = 0;
    while i < v.len()
        invariant
            i <= v.len(),
            sv == pairs_v(v@),
            sv.len() == v@.len(),
            forall|j: int| 0 <= j < v@.len() ==> #[trigger] sv[j] == v@[j]@,
            out@ == base + join_pairs(sv.take(i as int)),
        decreases v.len() - i,
    {
        let ghost before = out@;
        proof {
            lemma_join_pairs_step(sv, i as int);
        }
        if i > 0 {
            push_str(out, ", ");
        }
        let ghost sep = out@;
        let pair = &v[i];
        write_expr(&pair.key, out);
        push_str(out, ": ");
        write_expr(&pair.value, out);
        proof {
            let p = sv[i as int];
            assert(p == v@[i as int]@);
            assert(out@ =~= sep + (expr_str(p.key) + ": "@ + expr_str(p.value)));
            if i > 0 {
                assert(sep =~= before + ", "@);
            } else {
                assert(sep =~= before + Seq::<char>::empty());
            }
            assert(out@ =~= base + join_pairs(sv.take(i + 1)));
        }
        i = i + 1;
    }
    proof {
        assert(sv.take(v.len() as int) =~= sv);
    }
}

pub(crate) fn write_stmts(v: &Vec<Statement>, out: &mut String)
    ensures
        final(out)@ == old(out)@ + stmts_str(stmts_v(v@)),
    decreases v, 1int,
{
    let ghost sv = stmts_v(v@);
    let ghost base = out@;
    proof {
        lemma_stmts_v(v@);
    }
    let mut i: usize = 0;
    while i < v.len()
        invariant
            i <= v.len(),
            sv == stmts_v(v@),
            sv.len() == v@.len(),
            forall|j: int| 0 <= j < v@.len() ==> #[trigger] sv[j] == stmt_v(v@[j]),
            out@ == base + stmts_str(sv.take(i as int)),
        decreases v.len() - i,
    {
        proof {
            assert(sv.take(i + 1).drop_last() =~= sv.take(i as int));
            assert(sv.take(i + 1).last() == sv[i as int]);
        }
        write_stmt(&v[i], out);
        i = i + 1;
    }
    proof {
        assert(sv.take(v.len() as int) =~= sv);
    }
}

fn write_stmt(s: &Statement, out: &mut String)
    ensures
        final(out)@ == old(out)@ + stmt_str(s@),
    decreases s, 0int,
{
    match s {
        Statement::Let { token, name, value } => {
            push_str(out, token.literal.as_str());
            push_char(out, ' ');
            push_str(out, name.value.as_str());
            push_str(out, " = ");
            write_expr(value, out);
            push_char(out, ';');
        },
        Statement::Return { token, value } => {
            push_str(out, token.literal.as_str());
            push_char(out, ' ');
            write_expr(value, out);
            push_char(out, ';');
        },
        Statement::Expression { expression, .. } => {
            write_expr(expression, out);
        },
        Statement::Block(b) => {
            write_stmts(&b.statements, out);
        },
    }
}

fn write_ident(i: &Identifier, out: &mut String)
    ensures
        final(out)@ == old(out)@ + i@.value,
{
    push_str(out, i.value.as_str());
}

pub(crate) fn write_expr(e: &Expression, out: &mut String)
    ensures
        final(out)@ == old(out)@ + expr_str(e@),
    decreases e, 0int,
{
    match e {
        Expression::Identifier(i) => {
            write_ident(i, out);
        },
        Expression::IntegerLiteral { value, .. } => {
            let t = i64_text(*value);
            push_str(out, t.as_str());
        },
        Expression::PrefixExpr { operator, right, .. } => {
            push_char(out, '(');
            push_str(out, operator.as_str());
            write_expr(right, out);
            push_char(out, ')');
        },
        Expression::InfixExpr { left, operator, right, .. } => {
            push_char(out, '(');
            write_expr(left, out);
            push_char(out, ' ');
            push_str(out, operator.as_str());
            push_char(out, ' ');
            write_expr(right, out);
            push_char(out, ')');
        },
        Expression::BooleanLiteral { value, .. } => {
            if *value {
                push_str(out, "true");
            } else {
                push_str(out, "false");
            }
        },
        Expression::IfLiteral { condition, consequence, alternative, .. } => {
            let ghost o = out@;
            push_str(out, "if ");
            write_expr(condition, out);
            push_char(out, ' ');
            write_stmts(&consequence.statements, out);
            assert(block_str(consequence@) == stmts_str(stmts_v(consequence.statements@)));
            let ghost mid = out@;
            assert(mid =~= o + ("if "@ + expr_str(condition@) + seq![' '] + block_str(consequence@)));
            match alternative {
                Some(alt) => {
                    push_str(out, " else ");
                    write_stmts(&alt.statements, out);
                    assert(block_str(alt@) == stmts_str(stmts_v(alt.statements@)));
                    assert(out@ =~= mid + (" else "@ + block_str(alt@)));
                },
                None => {
                    assert(out@ =~= mid + Seq::<char>::empty());
                },
            }
        },
        Expression::FunctionLiteral { parameters, body, .. } => {
            let ghost o = out@;
            push_str(out, "fn(");
            write_idents(parameters, out);
            push_str(out, ") ");
            write_stmts(&body.statements, out);
            assert(block_str(body@) == stmts_str(stmts_v(body.statements@)));
            assert(out@ =~= o + ("fn("@ + join_idents(idents_v(parameters@)) + ") "@ + block_str(body@)));
        },
        Expression::CallExpr { function, arguments, .. } => {
            write_expr(function, out);
            push_char(out, '(');
            write_exprs(arguments, out);
            push_char(out, ')');
        },
        Expression::StringLiteral { value, .. } => {
            push_char(out, '"');
            push_str(out, value.as_str());
            push_char(out, '"');
        },
        Expression::ArrayLiteral { elements, .. } => {
            push_char(out, '[');
            write_exprs(elements, out);
            push_char(out, ']');
        },
        Expression::IndexExpr { left, index, .. } => {
            push_char(out, '(');
            write_expr(left, out);
            push_str(out, ")[");
            write_expr(index, out);
            push_char(out, ']');
        },
        Expression::HashLiteral { pairs, .. } => {
            push_char(out, '{');
            write_pairs(pairs, out);
            push_char(out, '}');
        },
        Expression::MacroLiteral { token, parameters, body } => {
            let ghost o = out@;
            push_str(out, token.literal.as_str());
            push_char(out, '(');
            write_idents(parameters, out);
            push_str(out, ") ");
            write_stmts(&body.statements, out);
            assert(block_str(body@) == stmts_str(stmts_v(body.statements@)));
            assert(out@ =~= o + (token@.text + seq!['('] + join_idents(idents_v(parameters@)) + ") "@
                + block_str(body@)));
        },
    }
}

impl Expression {
    /// The text of this expression, as the program prints it.
    pub fn to_string(&self) -> (s: String)
        ensures
            s@ == expr_str(self@),
    {
        let mut s = String::new();
        write_expr(self, &mut s);
        s
    }
}

impl Statement {
    /// The text of this statement, as the program prints it.
    pub fn to_string(&self) -> (s: String)
        ensures
            s@ == stmt_str(self@),
    {
        let mut s = String::new();
        write_stmt(self, &mut s);
        s
    }
}

impl BlockStatement {
    /// The text of this block: the texts of its statements.
    pub fn to_string(&self) -> (s: String)
        ensures
            s@ == block_str(self@),
    {
        let mut s = String::new();
        write_stmts(&self.statements, &mut s);
        s
    }
}

impl Identifier {
    /// The name, as the program prints it.
    pub fn to_string(&self) -> (s: String)
        ensures
            s@ == self@.value,
    {
        self.value.clone()
    }
}

impl Program {
    /// The text of the program: the texts of its statements.
    pub fn to_string(&self) -> (s: String)
        ensures
            s@ == stmts_str(self@),
    {
        let mut s = String::new();
        write_stmts(&self.statements, &mut s);
        s
    }
}


} // verus!
