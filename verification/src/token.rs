use vstd::prelude::*;

use crate::text::owned;

verus! {

/// The kinds of tokens produced by the lexer.
#[allow(non_camel_case_types)]
#[derive(Clone, Copy, Debug, PartialEq, Eq, Hash, Structural)]
pub enum TokenType {
    ILLEGAL,
    EOF,
    IDENT,
    INT,
    STRING,
    ASSIGN,
    PLUS,
    MINUS,
    BANG,
    ASTERISK,
    SLASH,
    LT,
    GT,
    EQ,
    NOT_EQ,
    COMMA,
    SEMICOLON,
    COLON,
    LPAREN,
    RPAREN,
    LBRACE,
    RBRACE,
    LBRACKET,
    RBRACKET,
    FUNCTION,
    LET,
    TRUE,
    FALSE,
    IF,
    ELSE,
    RETURN,
    MACRO,
}

/// The name of a token type, as `{:?}` prints it.
pub open spec fn kind_name(t: TokenType) -> Seq<char> {
    match t {
        TokenType::ILLEGAL => "ILLEGAL"@,
        TokenType::EOF => "EOF"@,
        TokenType::IDENT => "IDENT"@,
        TokenType::INT => "INT"@,
        TokenType::STRING => "STRING"@,
        TokenType::ASSIGN => "ASSIGN"@,
        TokenType::PLUS => "PLUS"@,
        TokenType::MINUS => "MINUS"@,
        TokenType::BANG => "BANG"@,
        TokenType::ASTERISK => "ASTERISK"@,
        TokenType::SLASH => "SLASH"@,
        TokenType::LT => "LT"@,
        TokenType::GT => "GT"@,
        TokenType::EQ => "EQ"@,
        TokenType::NOT_EQ => "NOT_EQ"@,
        TokenType::COMMA => "COMMA"@,
        TokenType::SEMICOLON => "SEMICOLON"@,
        TokenType::COLON => "COLON"@,
        TokenType::LPAREN => "LPAREN"@,
        TokenType::RPAREN => "RPAREN"@,
        TokenType::LBRACE => "LBRACE"@,
        TokenType::RBRACE => "RBRACE"@,
        TokenType::LBRACKET => "LBRACKET"@,
        TokenType::RBRACKET => "RBRACKET"@,
        TokenType::FUNCTION => "FUNCTION"@,
        TokenType::LET => "LET"@,
        TokenType::TRUE => "TRUE"@,
        TokenType::FALSE => "FALSE"@,
        TokenType::IF => "IF"@,
        TokenType::ELSE => "ELSE"@,
        TokenType::RETURN => "RETURN"@,
        TokenType::MACRO => "MACRO"@,
    }
}

impl TokenType {
    /// The name of this token type, as `{:?}` prints it.
    pub fn name(&self) -> (s: String)
        ensures
            s@ == kind_name(*self),
    {
        let t: &str = match self {
            TokenType::ILLEGAL => "ILLEGAL",
            TokenType::EOF => "EOF",
            TokenType::IDENT => "IDENT",
            TokenType::INT => "INT",
            TokenType::STRING => "STRING",
            TokenType::ASSIGN => "ASSIGN",
            TokenType::PLUS => "PLUS",
            TokenType::MINUS => "MINUS",
            TokenType::BANG => "BANG",
            TokenType::ASTERISK => "ASTERISK",
            TokenType::SLASH => "SLASH",
            TokenType::LT => "LT",
            TokenType::GT => "GT",
            TokenType::EQ => "EQ",
            TokenType::NOT_EQ => "NOT_EQ",
            TokenType::COMMA => "COMMA",
            TokenType::SEMICOLON => "SEMICOLON",
            TokenType::COLON => "COLON",
            TokenType::LPAREN => "LPAREN",
            TokenType::RPAREN => "RPAREN",
            TokenType::LBRACE => "LBRACE",
            TokenType::RBRACE => "RBRACE",
            TokenType::LBRACKET => "LBRACKET",
            TokenType::RBRACKET => "RBRACKET",
            TokenType::FUNCTION => "FUNCTION",
            TokenType::LET => "LET",
            TokenType::TRUE => "TRUE",
            TokenType::FALSE => "FALSE",
            TokenType::IF => "IF",
            TokenType::ELSE => "ELSE",
            TokenType::RETURN => "RETURN",
            TokenType::MACRO => "MACRO",
        };
        owned(t)
    }
}

/// The abstract value of a token: its type and its text.
#[verifier::ext_equal]
pub struct SToken {
    pub kind: TokenType,
    pub text: Seq<char>,
}

/// A token: its type and the source text it stands for.
#[derive(Clone, Debug, PartialEq, Eq)]
pub struct Token {
    pub token_type: TokenType,
    pub literal: String,
}

impl View for Token {
    type V = SToken;

    open spec fn view(&self) -> SToken {
        SToken { kind: self.token_type, text: self.literal@ }
    }
}

/// The token type of an identifier-like word: a keyword's type, or `IDENT`.
pub open spec fn keyword_type(s: Seq<char>) -> TokenType {
    if s == "fn"@ {
        TokenType::FUNCTION
    } else if s == "let"@ {
        TokenType::LET
    } else if s == "true"@ {
        TokenType::TRUE
    } else if s == "false"@ {
        TokenType::FALSE
    } else if s == "if"@ {
        TokenType::IF
    } else if s == "else"@ {
        TokenType::ELSE
    } else if s == "return"@ {
        TokenType::RETURN
    } else if s == "macro"@ {
        TokenType::MACRO
    } else {
        TokenType::IDENT
    }
}

/// The token type of a word: the keyword it spells, or `IDENT`.
pub fn lookup_keyword(literal: &str) -> (t: TokenType)
    ensures
        t == keyword_type(literal@),
{
    let s = owned(literal);
    if crate::text::same_text(&s, "fn") {
        TokenType::FUNCTION
    } else if crate::text::same_text(&s, "let") {
        TokenType::LET
    } else if crate::text::same_text(&s, "true") {
        TokenType::TRUE
    } else if crate::text::same_text(&s, "false") {
        TokenType::FALSE
    } else if crate::text::same_text(&s, "if") {
        TokenType::IF
    } else if crate::text::same_text(&s, "else") {
        TokenType::ELSE
    } else if crate::text::same_text(&s, "return") {
        TokenType::RETURN
    } else if crate::text::same_text(&s, "macro") {
        TokenType::MACRO
    } else {
        TokenType::IDENT
    }
}

impl Token {
    /// A token of the given type and text.
    pub fn new(token_type: TokenType, literal: &str) -> (t: Token)
        ensures
            t@ == (SToken { kind: token_type, text: literal@ }),
    {
        Token { token_type, literal: owned(literal) }
    }

    /// The type of this token.
    pub fn token_type(&self) -> (t: TokenType)
        ensures
            t == self@.kind,
    {
        self.token_type
    }

    /// A copy of the text of this token.
    pub fn literal(&self) -> (s: String)
        ensures
            s@ == self@.text,
    {
        self.literal.clone()
    }

    /// A copy of this token.
    pub fn duplicate(&self) -> (t: Token)
        ensures
            t@ == self@,
    {
        Token { token_type: self.token_type, literal: self.literal.clone() }
    }
}

} // verus!
