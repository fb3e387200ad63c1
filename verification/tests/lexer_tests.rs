use monkey::lexer::Lexer;
use monkey::token::{Token, TokenType};

#[test]
fn reports_token_spans_in_source_bytes() {
    let input = " let x = \"你好\" != 12;";
    let mut lexer = Lexer::new(input);
    for expected in ["let", "x", "=", "\"你好\"", "!=", "12", ";"] {
        let (_, span) = lexer.next_token_with_span();
        assert_eq!(&input[span], expected);
    }
    for _ in 0..2 {
        let (token, span) = lexer.next_token_with_span();
        assert_eq!(token.token_type(), TokenType::EOF);
        assert_eq!(span, input.len()..input.len());
    }
}

#[test]
fn spans_unterminated_strings_and_non_ascii_input() {
    for (input, expected_type, expected_literal) in [
        ("\"你好", TokenType::STRING, "你好"),
        ("\"你好\"", TokenType::STRING, "你好"),
        ("🙂", TokenType::ILLEGAL, "🙂"),
    ] {
        let mut lexer = Lexer::new(input);
        let (token, span) = lexer.next_token_with_span();
        assert_eq!(token, Token::new(expected_type, expected_literal));
        assert_eq!(span, 0..input.len());
        assert_eq!(lexer.next_token().token_type(), TokenType::EOF);
    }
}

#[test]
fn test_next_token() {
    let input = r#"let five = 5;
let ten = 10;

let add = fn(x, y) {
  x + y;
};

let result = add(five, ten);
!-/*5;
5 < 10 > 5;

if (5 < 10) {
  return true;
} else {
  return false;
}

10 == 10;
10 != 9;
"foobar"
"foo bar"
[1, 2];
{"foo": "bar"}
macro(x, y) { x + y; };
"#;

    let expected = [
        (TokenType::LET, "let"),
        (TokenType::IDENT, "five"),
        (TokenType::ASSIGN, "="),
        (TokenType::INT, "5"),
        (TokenType::SEMICOLON, ";"),
        (TokenType::LET, "let"),
        (TokenType::IDENT, "ten"),
        (TokenType::ASSIGN, "="),
        (TokenType::INT, "10"),
        (TokenType::SEMICOLON, ";"),
        (TokenType::LET, "let"),
        (TokenType::IDENT, "add"),
        (TokenType::ASSIGN, "="),
        (TokenType::FUNCTION, "fn"),
        (TokenType::LPAREN, "("),
        (TokenType::IDENT, "x"),
        (TokenType::COMMA, ","),
        (TokenType::IDENT, "y"),
        (TokenType::RPAREN, ")"),
        (TokenType::LBRACE, "{"),
        (TokenType::IDENT, "x"),
        (TokenType::PLUS, "+"),
        (TokenType::IDENT, "y"),
        (TokenType::SEMICOLON, ";"),
        (TokenType::RBRACE, "}"),
        (TokenType::SEMICOLON, ";"),
        (TokenType::LET, "let"),
        (TokenType::IDENT, "result"),
        (TokenType::ASSIGN, "="),
        (TokenType::IDENT, "add"),
        (TokenType::LPAREN, "("),
        (TokenType::IDENT, "five"),
        (TokenType::COMMA, ","),
        (TokenType::IDENT, "ten"),
        (TokenType::RPAREN, ")"),
        (TokenType::SEMICOLON, ";"),
        (TokenType::BANG, "!"),
        (TokenType::MINUS, "-"),
        (TokenType::SLASH, "/"),
        (TokenType::ASTERISK, "*"),
        (TokenType::INT, "5"),
        (TokenType::SEMICOLON, ";"),
        (TokenType::INT, "5"),
        (TokenType::LT, "<"),
        (TokenType::INT, "10"),
        (TokenType::GT, ">"),
        (TokenType::INT, "5"),
        (TokenType::SEMICOLON, ";"),
        (TokenType::IF, "if"),
        (TokenType::LPAREN, "("),
        (TokenType::INT, "5"),
        (TokenType::LT, "<"),
        (TokenType::INT, "10"),
        (TokenType::RPAREN, ")"),
        (TokenType::LBRACE, "{"),
        (TokenType::RETURN, "return"),
        (TokenType::TRUE, "true"),
        (TokenType::SEMICOLON, ";"),
        (TokenType::RBRACE, "}"),
        (TokenType::ELSE, "else"),
        (TokenType::LBRACE, "{"),
        (TokenType::RETURN, "return"),
        (TokenType::FALSE, "false"),
        (TokenType::SEMICOLON, ";"),
        (TokenType::RBRACE, "}"),
        (TokenType::INT, "10"),
        (TokenType::EQ, "=="),
        (TokenType::INT, "10"),
        (TokenType::SEMICOLON, ";"),
        (TokenType::INT, "10"),
        (TokenType::NOT_EQ, "!="),
        (TokenType::INT, "9"),
        (TokenType::SEMICOLON, ";"),
        (TokenType::STRING, "foobar"),
        (TokenType::STRING, "foo bar"),
        (TokenType::LBRACKET, "["),
        (TokenType::INT, "1"),
        (TokenType::COMMA, ","),
        (TokenType::INT, "2"),
        (TokenType::RBRACKET, "]"),
        (TokenType::SEMICOLON, ";"),
        (TokenType::LBRACE, "{"),
        (TokenType::STRING, "foo"),
        (TokenType::COLON, ":"),
        (TokenType::STRING, "bar"),
        (TokenType::RBRACE, "}"),
        (TokenType::MACRO, "macro"),
        (TokenType::LPAREN, "("),
        (TokenType::IDENT, "x"),
        (TokenType::COMMA, ","),
        (TokenType::IDENT, "y"),
        (TokenType::RPAREN, ")"),
        (TokenType::LBRACE, "{"),
        (TokenType::IDENT, "x"),
        (TokenType::PLUS, "+"),
        (TokenType::IDENT, "y"),
        (TokenType::SEMICOLON, ";"),
        (TokenType::RBRACE, "}"),
        (TokenType::SEMICOLON, ";"),
        (TokenType::EOF, ""),
    ];

    let mut lexer = Lexer::new(input);
    for (index, (token_type, literal)) in expected.into_iter().enumerate() {
        assert_eq!(
            lexer.next_token(),
            Token::new(token_type, literal),
            "unexpected token at index {index}"
        );
    }
}

#[test]
fn end_of_input_is_reported_again_and_again() {
    let mut lexer = Lexer::new("x");
    assert_eq!(lexer.next_token(), Token::new(TokenType::IDENT, "x"));
    for _ in 0..3 {
        assert_eq!(lexer.next_token(), Token::new(TokenType::EOF, ""));
    }
}

#[test]
fn keywords_are_told_from_identifiers() {
    assert_eq!(monkey::token::lookup_keyword("fn"), TokenType::FUNCTION);
    assert_eq!(monkey::token::lookup_keyword("macro"), TokenType::MACRO);
    assert_eq!(monkey::token::lookup_keyword("fnord"), TokenType::IDENT);
}

#[test]
fn reaches_end_of_input_within_one_read_per_character() {
    let input = "let x = \"é\" + 10;";
    let mut lexer = Lexer::new(input);
    let mut reads = 0;
    loop {
        reads += 1;
        let (token, _) = lexer.next_token_with_span();
        if token == Token::new(TokenType::EOF, "") {
            break;
        }
        assert!(reads <= input.chars().count());
    }
    for _ in 0..3 {
        let (token, span) = lexer.next_token_with_span();
        assert_eq!(token, Token::new(TokenType::EOF, ""));
        assert_eq!(span, input.len()..input.len());
    }
}
