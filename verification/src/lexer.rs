use vstd::prelude::*;

use crate::text::{push_char, string_of_range};
use crate::token::{keyword_type, lookup_keyword, SToken, Token, TokenType};

verus! {

/// An ASCII letter or `_`.
pub open spec fn letter(c: char) -> bool {
    ('a' as u32 <= c as u32 <= 'z' as u32) || ('A' as u32 <= c as u32 <= 'Z' as u32) || c == '_'
}

/// An ASCII decimal digit.
pub open spec fn digit(c: char) -> bool {
    '0' as u32 <= c as u32 <= '9' as u32
}

/// A character with the Unicode `White_Space` property (`char::is_whitespace`).
pub open spec fn white(c: char) -> bool {
    let u = c as u32;
    u == 0x20 || (0x09 <= u <= 0x0d) || u == 0x85 || u == 0xa0 || u == 0x1680 || (0x2000 <= u
        <= 0x200a) || u == 0x2028 || u == 0x2029 || u == 0x202f || u == 0x205f || u == 0x3000
}

/// The number of bytes that UTF-8 takes for `c` (`char::len_utf8`).
pub open spec fn char_width(c: char) -> nat {
    let u = c as u32;
    if u < 0x80 {
        1
    } else if u < 0x800 {
        2
    } else if u < 0x10000 {
        3
    } else {
        4
    }
}

/// The number of bytes that UTF-8 takes for the characters `s`.
pub open spec fn byte_len(s: Seq<char>) -> nat
    decreases s.len(),
{
    if s.len() == 0 {
        0
    } else {
        byte_len(s.drop_last()) + char_width(s.last())
    }
}

/// The byte offset in the source of the character at index `p`.
pub open spec fn byte_offset(s: Seq<char>, p: nat) -> nat {
    byte_len(s.take(p as int))
}

/// The index of the first character at or after `p` that is not white space.
pub open spec fn skip_white(s: Seq<char>, p: nat) -> nat
    decreases s.len() - p,
{
    if p < s.len() && white(s[p as int]) {
        skip_white(s, p + 1)
    } else {
        p
    }
}

/// The index of the first character at or after `p` that is not a letter.
pub open spec fn scan_letters(s: Seq<char>, p: nat) -> nat
    decreases s.len() - p,
{
    if p < s.len() && letter(s[p as int]) {
        scan_letters(s, p + 1)
    } else {
        p
    }
}

/// The index of the first character at or after `p` that is not a digit.
pub open spec fn scan_digits(s: Seq<char>, p: nat) -> nat
    decreases s.len() - p,
{
    if p < s.len() && digit(s[p as int]) {
        scan_digits(s, p + 1)
    } else {
        p
    }
}

/// The index of the first `"` or NUL character at or after `p`, or the end of the input.
pub open spec fn string_end(s: Seq<char>, p: nat) -> nat
    decreases s.len() - p,
{
    if p < s.len() && s[p as int] != '"' && s[p as int] != '\0' {
        string_end(s, p + 1)
    } else {
        p
    }
}

/// The index after `p`, kept within the input.
pub open spec fn step(s: Seq<char>, p: nat) -> nat {
    if p < s.len() {
        p + 1
    } else {
        p
    }
}

/// A token of the given type and text.
pub open spec fn stok(kind: TokenType, text: Seq<char>) -> SToken {
    SToken { kind, text }
}

/// The token that starts at index `p` (which holds no white space), and the index after it.
pub open spec fn read_token(s: Seq<char>, p: nat) -> (SToken, nat) {
    if p >= s.len() {
        (stok(TokenType::EOF, seq![]), p)
    } else {
        let c = s[p as int];
        let next_is_eq = p + 1 < s.len() && s[(p + 1) as int] == '=';
        if c == '=' {
            if next_is_eq {
                (stok(TokenType::EQ, seq!['=', '=']), p + 2)
            } else {
                (stok(TokenType::ASSIGN, seq!['=']), p + 1)
            }
        } else if c == '!' {
            if next_is_eq {
                (stok(TokenType::NOT_EQ, seq!['!', '=']), p + 2)
            } else {
                (stok(TokenType::BANG, seq!['!']), p + 1)
            }
        } else if c == '"' {
            let e = string_end(s, p + 1);
            (stok(TokenType::STRING, s.subrange((p + 1) as int, e as int)), step(s, e))
        } else if c == '+' {
            (stok(TokenType::PLUS, seq![c]), p + 1)
        } else if c == '-' {
            (stok(TokenType::MINUS, seq![c]), p + 1)
        } else if c == '*' {
            (stok(TokenType::ASTERISK, seq![c]), p + 1)
        } else if c == '/' {
            (stok(TokenType::SLASH, seq![c]), p + 1)
        } else if c == '<' {
            (stok(TokenType::LT, seq![c]), p + 1)
        } else if c == '>' {
            (stok(TokenType::GT, seq![c]), p + 1)
        } else if c == '(' {
            (stok(TokenType::LPAREN, seq![c]), p + 1)
        } else if c == ')' {
            (stok(TokenType::RPAREN, seq![c]), p + 1)
        } else if c == '{' {
            (stok(TokenType::LBRACE, seq![c]), p + 1)
        } else if c == '}' {
            (stok(TokenType::RBRACE, seq![c]), p + 1)
        } else if c == ',' {
            (stok(TokenType::COMMA, seq![c]), p + 1)
        } else if c == ';' {
            (stok(TokenType::SEMICOLON, seq![c]), p + 1)
        } else if c == '[' {
            (stok(TokenType::LBRACKET, seq![c]), p + 1)
        } else if c == ']' {
            (stok(TokenType::RBRACKET, seq![c]), p + 1)
        } else if c == ':' {
            (stok(TokenType::COLON, seq![c]), p + 1)
        } else if letter(c) {
            let e = scan_letters(s, p);
            let word = s.subrange(p as int, e as int);
            (stok(keyword_type(word), word), e)
        } else if digit(c) {
            let e = scan_digits(s, p);
            (stok(TokenType::INT, s.subrange(p as int, e as int)), e)
        } else {
            (stok(TokenType::ILLEGAL, seq![c]), p + 1)
        }
    }
}

/// The next token of the input `s` from index `p`: the token, the index where it starts
/// (after white space), and the index after it.
pub open spec fn lex_next(s: Seq<char>, p: nat) -> (SToken, nat, nat) {
    let q = skip_white(s, p);
    let (t, e) = read_token(s, q);
    (t, q, e)
}

/// The tokens of `s` from index `p` up to, and not including, the end of input.
pub open spec fn lex_from(s: Seq<char>, p: nat) -> Seq<SToken>
    decreases s.len() - p,
{
    let (t, q, e) = lex_next(s, p);
    if t.kind == TokenType::EOF || e <= p || e > s.len() {
        seq![]
    } else {
        seq![t] + lex_from(s, e)
    }
}

/// Where the lexer stands after `n` reads from index `p` of `s`.
pub open spec fn lex_pos(s: Seq<char>, p: nat, n: nat) -> nat
    decreases n,
{
    if n == 0 {
        p
    } else {
        lex_pos(s, lex_next(s, p).2, (n - 1) as nat)
    }
}

/// All the tokens of the input `s`, without the final `EOF`.
pub open spec fn lex_all(s: Seq<char>) -> Seq<SToken> {
    lex_from(s, 0)
}

pub proof fn lemma_byte_offset_step(s: Seq<char>, p: nat)
    requires
        p < s.len(),
    ensures
        byte_offset(s, p + 1) == byte_offset(s, p) + char_width(s[p as int]),
        byte_offset(s, p + 1) <= byte_offset(s, p) + 4,
{
    assert(s.take((p + 1) as int).drop_last() =~= s.take(p as int));
}

pub proof fn lemma_byte_offset_bound(s: Seq<char>, p: nat)
    requires
        p <= s.len(),
    ensures
        byte_offset(s, p) <= 4 * p,
    decreases p,
{
    if p > 0 {
        lemma_byte_offset_bound(s, (p - 1) as nat);
        lemma_byte_offset_step(s, (p - 1) as nat);
    } else {
        assert(s.take(0) =~= Seq::<char>::empty());
    }
}

proof fn lemma_skip_white_bounds(s: Seq<char>, p: nat)
    requires
        p <= s.len(),
    ensures
        p <= skip_white(s, p) <= s.len(),
        skip_white(s, p) < s.len() ==> !white(s[skip_white(s, p) as int]),
    decreases s.len() - p,
{
    if p < s.len() && white(s[p as int]) {
        lemma_skip_white_bounds(s, p + 1);
    }
}

proof fn lemma_read_token_progress(s: Seq<char>, p: nat)
    requires
        p < s.len(),
    ensures
        p < read_token(s, p).1 <= s.len(),
        read_token(s, p).0.kind != TokenType::EOF,
{
    lemma_scan_bounds(s, p);
    if letter(s[p as int]) {
        assert(scan_letters(s, p) == scan_letters(s, p + 1));
        lemma_scan_bounds(s, p + 1);
    }
    if digit(s[p as int]) {
        assert(scan_digits(s, p) == scan_digits(s, p + 1));
        lemma_scan_bounds(s, p + 1);
    }
    let w = s.subrange(p as int, scan_letters(s, p) as int);
    reveal_strlit("fn");
    reveal_strlit("let");
    reveal_strlit("true");
    reveal_strlit("false");
    reveal_strlit("if");
    reveal_strlit("else");
    reveal_strlit("return");
    reveal_strlit("macro");
}

proof fn lemma_scan_bounds(s: Seq<char>, p: nat)
    requires
        p <= s.len(),
    ensures
        p <= scan_letters(s, p) <= s.len(),
        p <= scan_digits(s, p) <= s.len(),
        p + 1 <= s.len() ==> p + 1 <= string_end(s, p + 1) <= s.len(),
    decreases s.len() - p,
{
    if p < s.len() {
        lemma_scan_bounds(s, p + 1);
    }
}

/// Once the input is used up, reading goes on giving `EOF` from the same place: the next
/// read after an `EOF` gives the same token, start and end again.
pub proof fn law_end_of_input_is_stable(s: Seq<char>, p: nat)
    requires
        p <= s.len(),
        lex_next(s, p).0.kind == TokenType::EOF,
    ensures
        lex_next(s, lex_next(s, p).2) == lex_next(s, p),
        lex_next(s, p).2 == s.len(),
{
    lemma_skip_white_bounds(s, p);
    let q = skip_white(s, p);
    if q < s.len() {
        lemma_read_token_progress(s, q);
    }
    assert(q == s.len());
    assert(skip_white(s, q) == q);
}

/// From the end of input on, every read gives `EOF` and stays at the end.
proof fn lemma_stays_at_end(s: Seq<char>, n: nat)
    ensures
        lex_pos(s, s.len(), n) == s.len(),
        lex_next(s, s.len()).0.kind == TokenType::EOF,
        lex_next(s, s.len()).2 == s.len(),
    decreases n,
{
    assert(skip_white(s, s.len()) == s.len());
    if n > 0 {
        lemma_stays_at_end(s, (n - 1) as nat);
    }
}

/// Reading from index `p` reaches the end of input within as many reads as characters are
/// left: the read after `k` reads gives `EOF` whenever `k` is at least that number, and so
/// does every read after it, from the end of input.
pub proof fn law_end_of_input_within_reach(s: Seq<char>, p: nat, k: nat)
    requires
        p <= s.len(),
        s.len() - p <= k,
    ensures
        lex_next(s, lex_pos(s, p, k)).0.kind == TokenType::EOF,
        lex_pos(s, p, k + 1) == s.len(),
    decreases k,
{
    lemma_skip_white_bounds(s, p);
    let q = skip_white(s, p);
    let e = lex_next(s, p).2;
    if lex_next(s, p).0.kind == TokenType::EOF {
        law_end_of_input_is_stable(s, p);
        lemma_stays_at_end(s, k);
        if k > 0 {
            assert(lex_pos(s, p, k) == lex_pos(s, s.len(), (k - 1) as nat));
        }
        assert(lex_pos(s, p, k + 1) == lex_pos(s, s.len(), k));
    } else {
        if q >= s.len() {
            assert(read_token(s, q).0.kind == TokenType::EOF);
        }
        lemma_read_token_progress(s, q);
        assert(p < e <= s.len());
        law_end_of_input_within_reach(s, e, (k - 1) as nat);
        assert(lex_pos(s, p, k) == lex_pos(s, e, (k - 1) as nat));
        assert(lex_pos(s, p, k + 1) == lex_pos(s, e, k));
    }
}

/// The characters that std's `char::is_whitespace` accepts (the Unicode `White_Space`
/// characters), code point by code point: tab, line feed, vertical tab, form feed,
/// carriage return, space, next line, no-break space, and the wider Unicode spaces and
/// separators.
pub open spec fn unicode_white_space(c: char) -> bool {
    let u = c as u32;
    ||| u == 0x0009
    ||| u == 0x000a
    ||| u == 0x000b
    ||| u == 0x000c
    ||| u == 0x000d
    ||| u == 0x0020
    ||| u == 0x0085
    ||| u == 0x00a0
    ||| u == 0x1680
    ||| u == 0x2000
    ||| u == 0x2001
    ||| u == 0x2002
    ||| u == 0x2003
    ||| u == 0x2004
    ||| u == 0x2005
    ||| u == 0x2006
    ||| u == 0x2007
    ||| u == 0x2008
    ||| u == 0x2009
    ||| u == 0x200a
    ||| u == 0x2028
    ||| u == 0x2029
    ||| u == 0x202f
    ||| u == 0x205f
    ||| u == 0x3000
}

/// White space between tokens is skipped, and only white space: a read from a position that
/// holds a white-space character (a carriage return among them) gives the same token, start
/// and end as a read from the next position; a read from a position that holds any other
/// character starts its token there.
pub proof fn law_white_space_is_skipped(s: Seq<char>, p: nat)
    requires
        p < s.len(),
    ensures
        unicode_white_space(s[p as int]) ==> lex_next(s, p) == lex_next(s, p + 1),
        !unicode_white_space(s[p as int]) ==> lex_next(s, p).1 == p,
{
    assert(white(s[p as int]) <==> unicode_white_space(s[p as int]));
}

/// Breaks Monkey source text into tokens.
pub struct Lexer {
    input: Vec<char>,
    position: usize,
    offset: usize,
}

impl Lexer {
    /// The characters of the source text.
    pub closed spec fn chars(&self) -> Seq<char> {
        self.input@
    }

    /// The index of the character the lexer stands at.
    pub closed spec fn pos(&self) -> nat {
        self.position as nat
    }

    /// The lexer's own consistency.
    pub closed spec fn wf(&self) -> bool {
        &&& self.position <= self.input.len()
        &&& self.input.len() <= usize::MAX / 4
        &&& self.offset == byte_offset(self.input@, self.position as nat)
    }

    /// What the lexer's consistency gives its users.
    pub proof fn lemma_wf(&self)
        requires
            self.wf(),
        ensures
            self.pos() <= self.chars().len(),
            self.chars().len() <= usize::MAX / 4,
    {
    }

    /// A lexer over the same text, standing at the same place.
    pub fn snapshot(&self) -> (c: Lexer)
        requires
            self.wf(),
        ensures
            c.wf(),
            c.chars() == self.chars(),
            c.pos() == self.pos(),
    {
        let input = self.input.clone();
        proof {
            assert(input@ =~= self.input@);
        }
        Lexer { input, position: self.position, offset: self.offset }
    }

    /// A lexer at the start of `input`.
    pub fn new(input: &str) -> (l: Lexer)
        requires
            input@.len() <= usize::MAX / 4,
        ensures
            l.wf(),
            l.chars() == input@,
            l.pos() == 0,
    {
        let input = crate::text::chars_of(input);
        proof {
            assert(input@.take(0) =~= Seq::<char>::empty());
        }
        Lexer { input, position: 0, offset: 0 }
    }

    fn read_char(&mut self)
        requires
            old(self).wf(),
        ensures
            final(self).wf(),
            final(self).chars() == old(self).chars(),
            final(self).pos() == step(old(self).chars(), old(self).pos()),
    {
        if self.position < self.input.len() {
            let c = self.input[self.position];
            proof {
                lemma_byte_offset_step(self.input@, self.position as nat);
                lemma_byte_offset_bound(self.input@, (self.position + 1) as nat);
            }
            self.offset = self.offset + char_len(c);
            self.position = self.position + 1;
        }
    }

    fn skip_whitespace(&mut self)
        requires
            old(self).wf(),
        ensures
            final(self).wf(),
            final(self).chars() == old(self).chars(),
            final(self).pos() == skip_white(old(self).chars(), old(self).pos()),
    {
        while self.position < self.input.len() && is_white(self.input[self.position])
            invariant
                self.wf(),
                self.chars() == old(self).chars(),
                skip_white(self.chars(), self.pos()) == skip_white(old(self).chars(), old(self).pos()),
            decreases self.input.len() - self.position,
        {
            self.read_char();
        }
    }

    fn read_identifier(&mut self) -> (s: String)
        requires
            old(self).wf(),
        ensures
            final(self).wf(),
            final(self).chars() == old(self).chars(),
            final(self).pos() == scan_letters(old(self).chars(), old(self).pos()),
            s@ == old(self).chars().subrange(old(self).pos() as int, final(self).pos() as int),
    {
        let start = self.position;
        while self.position < self.input.len() && is_letter(self.input[self.position])
            invariant
                self.wf(),
                start <= self.position,
                self.chars() == old(self).chars(),
                scan_letters(self.chars(), self.pos()) == scan_letters(old(self).chars(), old(self).pos()),
            decreases self.input.len() - self.position,
        {
            self.read_char();
        }
        string_of_range(&self.input, start, self.position)
    }

    fn read_number(&mut self) -> (s: String)
        requires
            old(self).wf(),
        ensures
            final(self).wf(),
            final(self).chars() == old(self).chars(),
            final(self).pos() == scan_digits(old(self).chars(), old(self).pos()),
            s@ == old(self).chars().subrange(old(self).pos() as int, final(self).pos() as int),
    {
        let start = self.position;
        while self.position < self.input.len() && is_digit(self.input[self.position])
            invariant
                self.wf(),
                start <= self.position,
                self.chars() == old(self).chars(),
                scan_digits(self.chars(), self.pos()) == scan_digits(old(self).chars(), old(self).pos()),
            decreases self.input.len() - self.position,
        {
            self.read_char();
        }
        string_of_range(&self.input, start, self.position)
    }

    /// Reads the contents of a string literal; the lexer stands at the opening quote and ends
    /// at the closing quote, at a NUL character or at the end of input.
    fn read_string(&mut self) -> (s: String)
        requires
            old(self).wf(),
            old(self).pos() < old(self).chars().len(),
        ensures
            final(self).wf(),
            final(self).chars() == old(self).chars(),
            final(self).pos() == string_end(old(self).chars(), old(self).pos() + 1),
            s@ == old(self).chars().subrange((old(self).pos() + 1) as int, final(self).pos() as int),
    {
        self.read_char();
        let start = self.position;
        while self.position < self.input.len() && self.input[self.position] != '"'
            && self.input[self.position] != '\0'
            invariant
                self.wf(),
                start <= self.position,
                start == old(self).pos() + 1,
                self.chars() == old(self).chars(),
                string_end(self.chars(), self.pos()) == string_end(
                    old(self).chars(),
                    old(self).pos() + 1,
                ),
            decreases self.input.len() - self.position,
        {
            self.read_char();
        }
        string_of_range(&self.input, start, self.position)
    }

    fn single(&mut self, kind: TokenType, c: char) -> (t: Token)
        requires
            old(self).wf(),
        ensures
            final(self).wf(),
            final(self).chars() == old(self).chars(),
            final(self).pos() == step(old(self).chars(), old(self).pos()),
            t@ == stok(kind, seq![c]),
    {
        let mut literal = String::new();
        push_char(&mut literal, c);
        self.read_char();
        Token { token_type: kind, literal }
    }

    fn read_token(&mut self) -> (t: Token)
        requires
            old(self).wf(),
        ensures
            final(self).wf(),
            final(self).chars() == old(self).chars(),
            (t@, final(self).pos()) == read_token(old(self).chars(), old(self).pos()),
    {
        proof {
            lemma_scan_bounds(self.input@, self.position as nat);
        }
        if self.position >= self.input.len() {
            let t = Token::new(TokenType::EOF, "");
            proof { reveal_strlit(""); }
            return t;
        }
        let c = self.input[self.position];
        let next_is_eq = self.position + 1 < self.input.len() && self.input[self.position + 1]
            == '=';
        if c == '=' {
            if next_is_eq {
                self.read_char();
                self.read_char();
                let t = Token::new(TokenType::EQ, "==");
                proof { reveal_strlit("=="); }
                t
            } else {
                self.single(TokenType::ASSIGN, c)
            }
        } else if c == '!' {
            if next_is_eq {
                self.read_char();
                self.read_char();
                let t = Token::new(TokenType::NOT_EQ, "!=");
                proof { reveal_strlit("!="); }
                t
            } else {
                self.single(TokenType::BANG, c)
            }
        } else if c == '"' {
            let literal = self.read_string();
            self.read_char();
            Token { token_type: TokenType::STRING, literal }
        } else if c == '+' {
            self.single(TokenType::PLUS, c)
        } else if c == '-' {
            self.single(TokenType::MINUS, c)
        } else if c == '*' {
            self.single(TokenType::ASTERISK, c)
        } else if c == '/' {
            self.single(TokenType::SLASH, c)
        } else if c == '<' {
            self.single(TokenType::LT, c)
        } else if c == '>' {
            self.single(TokenType::GT, c)
        } else if c == '(' {
            self.single(TokenType::LPAREN, c)
        } else if c == ')' {
            self.single(TokenType::RPAREN, c)
        } else if c == '{' {
            self.single(TokenType::LBRACE, c)
        } else if c == '}' {
            self.single(TokenType::RBRACE, c)
        } else if c == ',' {
            self.single(TokenType::COMMA, c)
        } else if c == ';' {
            self.single(TokenType::SEMICOLON, c)
        } else if c == '[' {
            self.single(TokenType::LBRACKET, c)
        } else if c == ']' {
            self.single(TokenType::RBRACKET, c)
        } else if c == ':' {
            self.single(TokenType::COLON, c)
        } else if is_letter(c) {
            let literal = self.read_identifier();
            let kind = lookup_keyword(literal.as_str());
            Token { token_type: kind, literal }
        } else if is_digit(c) {
            let literal = self.read_number();
            Token { token_type: TokenType::INT, literal }
        } else {
            self.single(TokenType::ILLEGAL, c)
        }
    }

    /// The next token.
    pub fn next_token(&mut self) -> (t: Token)
        requires
            old(self).wf(),
        ensures
            final(self).wf(),
            final(self).chars() == old(self).chars(),
            t@ == lex_next(old(self).chars(), old(self).pos()).0,
            final(self).pos() == lex_next(old(self).chars(), old(self).pos()).2,
            t@.kind != TokenType::EOF ==> old(self).pos() < final(self).pos(),
    {
        self.next_token_with_span().0
    }

    /// The next token, and the byte range of the source text that it was read from.
    pub fn next_token_with_span(&mut self) -> (r: (Token, std::ops::Range<usize>))
        requires
            old(self).wf(),
        ensures
            final(self).wf(),
            final(self).chars() == old(self).chars(),
            r.0@ == lex_next(old(self).chars(), old(self).pos()).0,
            final(self).pos() == lex_next(old(self).chars(), old(self).pos()).2,
            r.1.start == byte_offset(old(self).chars(), lex_next(old(self).chars(), old(self).pos()).1),
            r.1.end == byte_offset(old(self).chars(), lex_next(old(self).chars(), old(self).pos()).2),
            old(self).pos() <= lex_next(old(self).chars(), old(self).pos()).1
                <= lex_next(old(self).chars(), old(self).pos()).2 <= old(self).chars().len(),
            r.0@.kind != TokenType::EOF ==> old(self).pos() < final(self).pos(),
    {
        proof {
            lemma_skip_white_bounds(self.input@, self.position as nat);
        }
        self.skip_whitespace();
        let start = self.offset;
        proof {
            lemma_scan_bounds(self.input@, self.position as nat);
        }
        let token = self.read_token();
        proof {
            if self.position < self.input.len() {
            }
            if old(self).position < self.input.len() {
            }
            let q = skip_white(old(self).input@, old(self).position as nat);
            if q < self.input.len() {
                lemma_read_token_progress(self.input@, q);
            }
        }
        let end = self.offset;
        (token, start..end)
    }
}

fn is_letter(c: char) -> (r: bool)
    ensures
        r == letter(c),
{
    ('a' as u32 <= c as u32 && c as u32 <= 'z' as u32) || ('A' as u32 <= c as u32 && c as u32
        <= 'Z' as u32) || c == '_'
}

fn is_digit(c: char) -> (r: bool)
    ensures
        r == digit(c),
{
    '0' as u32 <= c as u32 && c as u32 <= '9' as u32
}

pub(crate) fn is_white(c: char) -> (r: bool)
    ensures
        r == white(c),
{
    let u = c as u32;
    u == 0x20 || (0x09 <= u && u <= 0x0d) || u == 0x85 || u == 0xa0 || u == 0x1680 || (0x2000
        <= u && u <= 0x200a) || u == 0x2028 || u == 0x2029 || u == 0x202f || u == 0x205f || u
        == 0x3000
}

pub(crate) fn char_len(c: char) -> (n: usize)
    ensures
        n == char_width(c),
{
    let u = c as u32;
    if u < 0x80 {
        1
    } else if u < 0x800 {
        2
    } else if u < 0x10000 {
        3
    } else {
        4
    }
}

} // verus!
