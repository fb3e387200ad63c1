use vstd::prelude::*;

pub use crate::rewrite::{modify_expression, modify_program, modify_statement, Modifier};

use crate::token::{SToken, Token};

verus! {

// ---------------------------------------------------------------------------
// Abstract syntax, as values of the logic
// ---------------------------------------------------------------------------

/// The abstract value of an identifier.
pub struct SIdent {
    pub token: SToken,
    pub value: Seq<char>,
}

/// The abstract value of a block of statements.
pub struct SBlock {
    pub token: SToken,
    pub statements: Seq<SStmt>,
}

/// The abstract value of a key and value in a hash literal.
pub struct SPair {
    pub key: SExpr,
    pub value: SExpr,
}

/// The abstract value of a statement.
pub enum SStmt {
    Let { token: SToken, name: SIdent, value: SExpr },
    Return { token: SToken, value: SExpr },
    Expression { token: SToken, expression: SExpr },
    Block(SBlock),
}

/// The abstract value of an expression.
pub enum SExpr {
    Identifier(SIdent),
    IntegerLiteral { token: SToken, value: i64 },
    BooleanLiteral { token: SToken, value: bool },
    PrefixExpr { token: SToken, operator: Seq<char>, right: Box<SExpr> },
    InfixExpr { token: SToken, left: Box<SExpr>, operator: Seq<char>, right: Box<SExpr> },
    IfLiteral { token: SToken, condition: Box<SExpr>, consequence: SBlock, alternative: Option<SBlock> },
    FunctionLiteral { token: SToken, parameters: Seq<SIdent>, body: SBlock },
    CallExpr { token: SToken, function: Box<SExpr>, arguments: Seq<SExpr> },
    StringLiteral { token: SToken, value: Seq<char> },
    ArrayLiteral { token: SToken, elements: Seq<SExpr> },
    IndexExpr { token: SToken, left: Box<SExpr>, index: Box<SExpr> },
    HashLiteral { token: SToken, pairs: Seq<SPair> },
    MacroLiteral { token: SToken, parameters: Seq<SIdent>, body: SBlock },
}

// ---------------------------------------------------------------------------
// The syntax tree
// ---------------------------------------------------------------------------

/// A whole program: a list of statements.
#[derive(Debug, PartialEq, Eq)]
pub struct Program {
    pub statements: Vec<Statement>,
}

/// A statement.
#[derive(Debug, PartialEq, Eq)]
pub enum Statement {
    Let { token: Token, name: Identifier, value: Expression },
    Return { token: Token, value: Expression },
    Expression { token: Token, expression: Expression },
    Block(BlockStatement),
}

/// A block of statements between braces.
#[derive(Debug, PartialEq, Eq)]
pub struct BlockStatement {
    pub token: Token,
    pub statements: Vec<Statement>,
}

/// An expression.
#[derive(Debug, PartialEq, Eq)]
pub enum Expression {
    Identifier(Identifier),
    IntegerLiteral { token: Token, value: i64 },
    BooleanLiteral { token: Token, value: bool },
    PrefixExpr { token: Token, operator: String, right: Box<Expression> },
    InfixExpr { token: Token, left: Box<Expression>, operator: String, right: Box<Expression> },
    IfLiteral {
        token: Token,
        condition: Box<Expression>,
        consequence: BlockStatement,
        alternative: Option<BlockStatement>,
    },
    FunctionLiteral { token: Token, parameters: Vec<Identifier>, body: BlockStatement },
    CallExpr { token: Token, function: Box<Expression>, arguments: Vec<Expression> },
    StringLiteral { token: Token, value: String },
    ArrayLiteral { token: Token, elements: Vec<Expression> },
    IndexExpr { token: Token, left: Box<Expression>, index: Box<Expression> },
    HashLiteral { token: Token, pairs: Vec<HashPair> },
    MacroLiteral { token: Token, parameters: Vec<Identifier>, body: BlockStatement },
}

/// A name.
#[derive(Debug, PartialEq, Eq)]
pub struct Identifier {
    pub token: Token,
    pub value: String,
}

/// A key and its value in a hash literal.
#[derive(Debug, PartialEq, Eq)]
pub struct HashPair {
    pub key: Expression,
    pub value: Expression,
}

// ---------------------------------------------------------------------------
// Views
// ---------------------------------------------------------------------------

impl View for Identifier {
    type V = SIdent;

    open spec fn view(&self) -> SIdent {
        SIdent { token: self.token@, value: self.value@ }
    }
}

/// The abstract values of a list of identifiers.
pub open spec fn idents_v(s: Seq<Identifier>) -> Seq<SIdent> {
    Seq::new(s.len(), |i: int| s[i]@)
}

/// The abstract value of an expression.
pub open spec fn expr_v(e: Expression) -> SExpr
    decreases e,
{
    match e {
        Expression::Identifier(i) => SExpr::Identifier(i@),
        Expression::IntegerLiteral { token, value } => SExpr::IntegerLiteral { token: token@, value },
        Expression::BooleanLiteral { token, value } => SExpr::BooleanLiteral { token: token@, value },
        Expression::PrefixExpr { token, operator, right } => SExpr::PrefixExpr {
            token: token@,
            operator: operator@,
            right: Box::new(expr_v(*right)),
        },
        Expression::InfixExpr { token, left, operator, right } => SExpr::InfixExpr {
            token: token@,
            left: Box::new(expr_v(*left)),
            operator: operator@,
            right: Box::new(expr_v(*right)),
        },
        Expression::IfLiteral { token, condition, consequence, alternative } => SExpr::IfLiteral {
            token: token@,
            condition: Box::new(expr_v(*condition)),
            consequence: block_v(consequence),
            alternative: match alternative {
                Some(b) => Some(block_v(b)),
                None => None,
            },
        },
        Expression::FunctionLiteral { token, parameters, body } => SExpr::FunctionLiteral {
            token: token@,
            parameters: idents_v(parameters@),
            body: block_v(body),
        },
        Expression::CallExpr { token, function, arguments } => SExpr::CallExpr {
            token: token@,
            function: Box::new(expr_v(*function)),
            arguments: exprs_v(arguments@),
        },
        Expression::StringLiteral { token, value } => SExpr::StringLiteral { token: token@, value: value@ },
        Expression::ArrayLiteral { token, elements } => SExpr::ArrayLiteral {
            token: token@,
            elements: exprs_v(elements@),
        },
        Expression::IndexExpr { token, left, index } => SExpr::IndexExpr {
            token: token@,
            left: Box::new(expr_v(*left)),
            index: Box::new(expr_v(*index)),
        },
        Expression::HashLiteral { token, pairs } => SExpr::HashLiteral { token: token@, pairs: pairs_v(pairs@) },
        Expression::MacroLiteral { token, parameters, body } => SExpr::MacroLiteral {
            token: token@,
            parameters: idents_v(parameters@),
            body: block_v(body),
        },
    }
}

/// The abstract values of a list of expressions.
pub open spec fn exprs_v(s: Seq<Expression>) -> Seq<SExpr>
    decreases s,
{
    if s.len() == 0 {
        Seq::empty()
    } else {
        exprs_v(s.drop_last()).push(expr_v(s.last()))
    }
}

/// The abstract values of the pairs of a hash literal.
pub open spec fn pairs_v(s: Seq<HashPair>) -> Seq<SPair>
    decreases s,
{
    if s.len() == 0 {
        Seq::empty()
    } else {
        pairs_v(s.drop_last()).push(SPair { key: expr_v(s.last().key), value: expr_v(s.last().value) })
    }
}

/// The abstract value of a statement.
pub open spec fn stmt_v(s: Statement) -> SStmt
    decreases s,
{
    match s {
        Statement::Let { token, name, value } => SStmt::Let { token: token@, name: name@, value: expr_v(value) },
        Statement::Return { token, value } => SStmt::Return { token: token@, value: expr_v(value) },
        Statement::Expression { token, expression } => SStmt::Expression {
            token: token@,
            expression: expr_v(expression),
        },
        Statement::Block(b) => SStmt::Block(block_v(b)),
    }
}

/// The abstract values of a list of statements.
pub open spec fn stmts_v(s: Seq<Statement>) -> Seq<SStmt>
    decreases s,
{
    if s.len() == 0 {
        Seq::empty()
    } else {
        stmts_v(s.drop_last()).push(stmt_v(s.last()))
    }
}

/// The abstract value of a block.
pub open spec fn block_v(b: BlockStatement) -> SBlock
    decreases b,
{
    SBlock { token: b.token@, statements: stmts_v(b.statements@) }
}

impl View for Expression {
    type V = SExpr;

    open spec fn view(&self) -> SExpr {
        expr_v(*self)
    }
}

impl View for Statement {
    type V = SStmt;

    open spec fn view(&self) -> SStmt {
        stmt_v(*self)
    }
}

impl View for BlockStatement {
    type V = SBlock;

    open spec fn view(&self) -> SBlock {
        block_v(*self)
    }
}

impl View for HashPair {
    type V = SPair;

    open spec fn view(&self) -> SPair {
        SPair { key: expr_v(self.key), value: expr_v(self.value) }
    }
}

impl View for Program {
    type V = Seq<SStmt>;

    open spec fn view(&self) -> Seq<SStmt> {
        stmts_v(self.statements@)
    }
}

pub proof fn lemma_exprs_v(s: Seq<Expression>)
    ensures
        exprs_v(s).len() == s.len(),
        forall|i: int| 0 <= i < s.len() ==> #[trigger] exprs_v(s)[i] == expr_v(s[i]),
    decreases s.len(),
{
    if s.len() > 0 {
        lemma_exprs_v(s.drop_last());
    }
}

/// The length of the views of a list of expressions, and the view of its first element.
pub proof fn lemma_exprs_first(s: Seq<Expression>)
    ensures
        exprs_v(s).len() == s.len(),
        s.len() > 0 ==> exprs_v(s)[0] == expr_v(s[0]),
{
    lemma_exprs_v(s);
}

pub proof fn lemma_stmts_v(s: Seq<Statement>)
    ensures
        stmts_v(s).len() == s.len(),
        forall|i: int| 0 <= i < s.len() ==> #[trigger] stmts_v(s)[i] == stmt_v(s[i]),
    decreases s.len(),
{
    if s.len() > 0 {
        lemma_stmts_v(s.drop_last());
    }
}

pub proof fn lemma_pairs_v(s: Seq<HashPair>)
    ensures
        pairs_v(s).len() == s.len(),
        forall|i: int| 0 <= i < s.len() ==> #[trigger] pairs_v(s)[i] == s[i]@,
    decreases s.len(),
{
    if s.len() > 0 {
        lemma_pairs_v(s.drop_last());
    }
}


// ---------------------------------------------------------------------------
// Copies
// ---------------------------------------------------------------------------

pub fn copy_idents(v: &Vec<Identifier>) -> (r: Vec<Identifier>)
    ensures
        idents_v(r@) == idents_v(v@),
{
    let mut r: Vec<Identifier> = Vec::new();
    let mut i: usize = 0;
    while i < v.len()
        invariant
            i <= v.len(),
            r@.len() == i,
            forall|j: int| 0 <= j < i ==> #[trigger] r@[j]@ == v@[j]@,
        decreases v.len() - i,
    {
        r.push(v[i].duplicate());
        i = i + 1;
    }
    assert(idents_v(r@) =~= idents_v(v@));
    r
}

fn copy_exprs(v: &Vec<Expression>) -> (r: Vec<Expression>)
    ensures
        exprs_v(r@) == exprs_v(v@),
    decreases v, 1int,
{
    let mut r: Vec<Expression> = Vec::new();
    let mut i: usize = 0;
    while i < v.len()
        invariant
            i <= v.len(),
            exprs_v(r@) == exprs_v(v@.take(i as int)),
        decreases v.len() - i,
    {
        let x = v[i].duplicate();
        proof {
            assert(v@.take(i + 1).drop_last() =~= v@.take(i as int));
            assert(r@.push(x).drop_last() =~= r@);
        }
        r.push(x);
        i = i + 1;
    }
    assert(v@.take(v.len() as int) =~= v@);
    r
}

fn copy_pairs(v: &Vec<HashPair>) -> (r: Vec<HashPair>)
    ensures
        pairs_v(r@) == pairs_v(v@),
    decreases v, 1int,
{
    let mut r: Vec<HashPair> = Vec::new();
    let mut i: usize = 0;
    while i < v.len()
        invariant
            i <= v.len(),
            pairs_v(r@) == pairs_v(v@.take(i as int)),
        decreases v.len() - i,
    {
        let x = HashPair { key: v[i].key.duplicate(), value: v[i].value.duplicate() };
        proof {
            assert(v@.take(i + 1).drop_last() =~= v@.take(i as int));
            assert(r@.push(x).drop_last() =~= r@);
        }
        r.push(x);
        i = i + 1;
    }
    assert(v@.take(v.len() as int) =~= v@);
    r
}

fn copy_stmts(v: &Vec<Statement>) -> (r: Vec<Statement>)
    ensures
        stmts_v(r@) == stmts_v(v@),
    decreases v, 1int,
{
    let mut r: Vec<Statement> = Vec::new();
    let mut i: usize = 0;
    while i < v.len()
        invariant
            i <= v.len(),
            stmts_v(r@) == stmts_v(v@.take(i as int)),
        decreases v.len() - i,
    {
        let x = v[i].duplicate();
        proof {
            assert(v@.take(i + 1).drop_last() =~= v@.take(i as int));
            assert(r@.push(x).drop_last() =~= r@);
        }
        r.push(x);
        i = i + 1;
    }
    assert(v@.take(v.len() as int) =~= v@);
    r
}

impl Identifier {
    /// A copy of this identifier.
    pub fn duplicate(&self) -> (r: Identifier)
        ensures
            r@ == self@,
    {
        Identifier { token: self.token.duplicate(), value: self.value.clone() }
    }
}

impl BlockStatement {
    /// A copy of this block.
    pub fn duplicate(&self) -> (r: BlockStatement)
        ensures
            r@ == self@,
        decreases self, 2int,
    {
        BlockStatement { token: self.token.duplicate(), statements: copy_stmts(&self.statements) }
    }
}

impl Statement {
    /// A copy of this statement.
    pub fn duplicate(&self) -> (r: Statement)
        ensures
            r@ == self@,
        decreases self, 2int,
    {
        match self {
            Statement::Let { token, name, value } => Statement::Let {
                token: token.duplicate(),
                name: name.duplicate(),
                value: value.duplicate(),
            },
            Statement::Return { token, value } => Statement::Return {
                token: token.duplicate(),
                value: value.duplicate(),
            },
            Statement::Expression { token, expression } => Statement::Expression {
                token: token.duplicate(),
                expression: expression.duplicate(),
            },
            Statement::Block(b) => Statement::Block(b.duplicate()),
        }
    }
}

impl Expression {
    /// A copy of this expression.
    pub fn duplicate(&self) -> (r: Expression)
        ensures
            r@ == self@,
        decreases self, 2int,
    {
        match self {
            Expression::Identifier(i) => Expression::Identifier(i.duplicate()),
            Expression::IntegerLiteral { token, value } => Expression::IntegerLiteral {
                token: token.duplicate(),
                value: *value,
            },
            Expression::BooleanLiteral { token, value } => Expression::BooleanLiteral {
                token: token.duplicate(),
                value: *value,
            },
            Expression::PrefixExpr { token, operator, right } => Expression::PrefixExpr {
                token: token.duplicate(),
                operator: operator.clone(),
                right: Box::new((**right).duplicate()),
            },
            Expression::InfixExpr { token, left, operator, right } => Expression::InfixExpr {
                token: token.duplicate(),
                left: Box::new((**left).duplicate()),
                operator: operator.clone(),
                right: Box::new((**right).duplicate()),
            },
            Expression::IfLiteral { token, condition, consequence, alternative } => {
                let alt = match alternative {
                    Some(b) => Some(b.duplicate()),
                    None => None,
                };
                Expression::IfLiteral {
                    token: token.duplicate(),
                    condition: Box::new((**condition).duplicate()),
                    consequence: consequence.duplicate(),
                    alternative: alt,
                }
            },
            Expression::FunctionLiteral { token, parameters, body } => Expression::FunctionLiteral {
                token: token.duplicate(),
                parameters: copy_idents(parameters),
                body: body.duplicate(),
            },
            Expression::CallExpr { token, function, arguments } => Expression::CallExpr {
                token: token.duplicate(),
                function: Box::new((**function).duplicate()),
                arguments: copy_exprs(arguments),
            },
            Expression::StringLiteral { token, value } => Expression::StringLiteral {
                token: token.duplicate(),
                value: value.clone(),
            },
            Expression::ArrayLiteral { token, elements } => Expression::ArrayLiteral {
                token: token.duplicate(),
                elements: copy_exprs(elements),
            },
            Expression::IndexExpr { token, left, index } => Expression::IndexExpr {
                token: token.duplicate(),
                left: Box::new((**left).duplicate()),
                index: Box::new((**index).duplicate()),
            },
            Expression::HashLiteral { token, pairs } => Expression::HashLiteral {
                token: token.duplicate(),
                pairs: copy_pairs(pairs),
            },
            Expression::MacroLiteral { token, parameters, body } => Expression::MacroLiteral {
                token: token.duplicate(),
                parameters: copy_idents(parameters),
                body: body.duplicate(),
            },
        }
    }
}


// ---------------------------------------------------------------------------
// Tokens and accessors
// ---------------------------------------------------------------------------

/// The token an expression starts with.
pub open spec fn expr_token(e: SExpr) -> SToken {
    match e {
        SExpr::Identifier(i) => i.token,
        SExpr::IntegerLiteral { token, .. } => token,
        SExpr::BooleanLiteral { token, .. } => token,
        SExpr::PrefixExpr { token, .. } => token,
        SExpr::InfixExpr { token, .. } => token,
        SExpr::IfLiteral { token, .. } => token,
        SExpr::FunctionLiteral { token, .. } => token,
        SExpr::CallExpr { token, .. } => token,
        SExpr::StringLiteral { token, .. } => token,
        SExpr::ArrayLiteral { token, .. } => token,
        SExpr::IndexExpr { token, .. } => token,
        SExpr::HashLiteral { token, .. } => token,
        SExpr::MacroLiteral { token, .. } => token,
    }
}

/// The token a statement starts with.
pub open spec fn stmt_token(s: SStmt) -> SToken {
    match s {
        SStmt::Let { token, .. } => token,
        SStmt::Return { token, .. } => token,
        SStmt::Expression { token, .. } => token,
        SStmt::Block(b) => b.token,
    }
}

impl Expression {
    /// The text of the token this expression starts with.
    pub fn token_literal(&self) -> (s: String)
        ensures
            s@ == expr_token(self@).text,
    {
        match self {
            Expression::Identifier(i) => i.token_literal(),
            Expression::IntegerLiteral { token, .. } => token.literal(),
            Expression::BooleanLiteral { token, .. } => token.literal(),
            Expression::PrefixExpr { token, .. } => token.literal(),
            Expression::InfixExpr { token, .. } => token.literal(),
            Expression::IfLiteral { token, .. } => token.literal(),
            Expression::FunctionLiteral { token, .. } => token.literal(),
            Expression::CallExpr { token, .. } => token.literal(),
            Expression::StringLiteral { token, .. } => token.literal(),
            Expression::ArrayLiteral { token, .. } => token.literal(),
            Expression::IndexExpr { token, .. } => token.literal(),
            Expression::HashLiteral { token, .. } => token.literal(),
            Expression::MacroLiteral { token, .. } => token.literal(),
        }
    }
}

impl Statement {
    /// The text of the token this statement starts with.
    pub fn token_literal(&self) -> (s: String)
        ensures
            s@ == stmt_token(self@).text,
    {
        match self {
            Statement::Let { token, .. } => token.literal(),
            Statement::Return { token, .. } => token.literal(),
            Statement::Expression { token, .. } => token.literal(),
            Statement::Block(b) => b.token.literal(),
        }
    }
}

impl Program {
    /// An empty program.
    pub fn new() -> (p: Program)
        ensures
            p@ == Seq::<SStmt>::empty(),
    {
        Program { statements: Vec::new() }
    }

    /// The statements of the program.
    pub fn statements(&self) -> (s: &Vec<Statement>)
        ensures
            stmts_v(s@) == self@,
    {
        &self.statements
    }

    /// Appends a statement.
    pub fn add_statement(&mut self, statement: Statement)
        ensures
            final(self)@ == old(self)@.push(statement@),
    {
        let ghost before = self.statements@;
        self.statements.push(statement);
        assert(self.statements@.drop_last() =~= before);
    }

    /// The text of the first statement's token, or `""` for an empty program.
    pub fn token_literal(&self) -> (s: String)
        ensures
            s@ == if self@.len() == 0 {
                Seq::<char>::empty()
            } else {
                stmt_token(self@[0]).text
            },
    {
        proof {
            lemma_stmts_v(self.statements@);
        }
        if self.statements.len() == 0 {
            String::new()
        } else {
            self.statements[0].token_literal()
        }
    }
}

impl BlockStatement {
    /// A block of the given statements, opened by `token`.
    pub fn new(token: Token, statements: Vec<Statement>) -> (b: BlockStatement)
        ensures
            b@ == (SBlock { token: token@, statements: stmts_v(statements@) }),
    {
        BlockStatement { token, statements }
    }

    /// The statements of the block.
    pub fn statements(&self) -> (s: &Vec<Statement>)
        ensures
            stmts_v(s@) == self@.statements,
    {
        &self.statements
    }

    /// The text of the token that opens the block.
    pub fn token_literal(&self) -> (s: String)
        ensures
            s@ == self@.token.text,
    {
        self.token.literal()
    }
}

impl Identifier {
    /// An identifier of the given name, read from `token`.
    pub fn new(token: Token, value: &str) -> (i: Identifier)
        ensures
            i@ == (SIdent { token: token@, value: value@ }),
    {
        Identifier { token, value: value.to_owned() }
    }

    /// The name.
    pub fn value(&self) -> (s: &str)
        ensures
            s@ == self@.value,
    {
        self.value.as_str()
    }

    /// The text of the token the identifier was read from.
    pub fn token_literal(&self) -> (s: String)
        ensures
            s@ == self@.token.text,
    {
        self.token.literal()
    }
}

impl HashPair {
    /// A key and its value.
    pub fn new(key: Expression, value: Expression) -> (p: HashPair)
        ensures
            p@ == (SPair { key: key@, value: value@ }),
    {
        HashPair { key, value }
    }

    /// The key.
    pub fn key(&self) -> (e: &Expression)
        ensures
            e@ == self@.key,
    {
        &self.key
    }

    /// The value.
    pub fn value(&self) -> (e: &Expression)
        ensures
            e@ == self@.value,
    {
        &self.value
    }
}


} // verus!
