use vstd::prelude::*;

use unicode_segmentation::UnicodeSegmentation;

use crate::environment::{EnvironmentRef, Runtime, SRuntime};
use crate::evaluator::{ev_program, status_v, try_eval, Halt, Status, STEPS};
use crate::lexer::{byte_len, byte_offset, lemma_byte_offset_bound, lemma_byte_offset_step, lex_next, white, Lexer};
use crate::token::TokenType;
use crate::macro_expansion::{define_macros, define_s, expand_s, try_expand_macros};
use crate::object::inspect;
use crate::parser::{parse_source, texts_v, Parser};
use crate::text::{chars_of, owned, push_char, push_str, string_of};

verus! {

// ---------------------------------------------------------------------------
// Reading input: delimiters, indentation
// ---------------------------------------------------------------------------

/// The closing delimiters still owed after `s`, innermost last, and whether a string is open;
/// or the first closing delimiter that closes nothing open, or the wrong thing.
pub open spec fn delims(s: Seq<char>) -> Result<(Seq<char>, bool), char>
    decreases s.len(),
{
    if s.len() == 0 {
        Ok((Seq::empty(), false))
    } else {
        match delims(s.drop_last()) {
            Err(c) => Err(c),
            Ok((d, ins)) => {
                let c = s.last();
                if c == '"' {
                    Ok((d, !ins))
                } else if ins {
                    Ok((d, ins))
                } else if c == '(' {
                    Ok((d.push(')'), ins))
                } else if c == '[' {
                    Ok((d.push(']'), ins))
                } else if c == '{' {
                    Ok((d.push('}'), ins))
                } else if c == ')' || c == ']' || c == '}' {
                    if d.len() > 0 && d.last() == c {
                        Ok((d.drop_last(), ins))
                    } else {
                        Err(c)
                    }
                } else {
                    Ok((d, ins))
                }
            },
        }
    }
}

/// The message for a closing delimiter that does not match.
pub open spec fn delim_msg(c: char) -> Seq<char> {
    "unexpected closing delimiter: "@.push(c)
}

/// The delimiters still owed after `input`, innermost last, and whether a string is open; or
/// the message for the first closing delimiter that does not match.
pub fn delimiter_state(input: &str) -> (r: Result<(Vec<char>, bool), String>)
    ensures
        match delims(input@) {
            Ok((d, ins)) => r matches Ok((v, b)) && v@ == d && b == ins,
            Err(c) => r matches Err(m) && m@ == delim_msg(c),
        },
{
    let s = chars_of(input);
    let mut stack: Vec<char> = Vec::new();
    let mut in_string = false;
    let mut bad: Option<char> = None;
    let mut i: usize = 0;
    assert(s@.take(0) =~= Seq::<char>::empty());
    while i < s.len()
        invariant
            i <= s@.len(),
            s@ == input@,
            match delims(s@.take(i as int)) {
                Ok((d, ins)) => bad is None && stack@ == d && in_string == ins,
                Err(c) => bad == Some(c),
            },
        decreases s.len() - i,
    {
        proof {
            assert(s@.take(i + 1).drop_last() =~= s@.take(i as int));
            assert(s@.take(i + 1).last() == s@[i as int]);
        }
        if bad.is_none() {
            let c = s[i];
            if c == '"' {
                in_string = !in_string;
            } else if in_string {
            } else if c == '(' {
                stack.push(')');
            } else if c == '[' {
                stack.push(']');
            } else if c == '{' {
                stack.push('}');
            } else if c == ')' || c == ']' || c == '}' {
                if stack.len() > 0 && stack[stack.len() - 1] == c {
                    let _ = stack.pop();
                } else {
                    bad = Some(c);
                }
            }
        }
        i = i + 1;
    }
    proof {
        assert(s@.take(s@.len() as int) =~= s@);
    }
    match bad {
        Some(c) => {
            let mut m = owned("unexpected closing delimiter: ");
            push_char(&mut m, c);
            Err(m)
        },
        None => Ok((stack, in_string)),
    }
}

/// Whether an input is ready to run, waits for more, or is wrong.
#[derive(Debug, PartialEq, Eq)]
pub enum Validation {
    /// A delimiter or a string is still open.
    Incomplete,
    /// The input can be run.
    Valid,
    /// A closing delimiter does not match; the message says which.
    Invalid(Option<String>),
}

/// Whether an input is ready to run: not while a delimiter or a string is open, and never
/// with a closing delimiter that does not match.
pub fn validate_input(input: &str) -> (v: Validation)
    ensures
        match delims(input@) {
            Ok((d, ins)) => if ins || d.len() > 0 {
                v == Validation::Incomplete
            } else {
                v == Validation::Valid
            },
            Err(c) => v matches Validation::Invalid(Some(m)) && m@ == delim_msg(c),
        },
{
    match delimiter_state(input) {
        Ok((d, ins)) => {
            if ins || d.len() > 0 {
                Validation::Incomplete
            } else {
                Validation::Valid
            }
        },
        Err(m) => Validation::Invalid(Some(m)),
    }
}

/// The index of the character that starts at byte `pos` of `s`, searched from index `k`.
pub open spec fn boundary_from(s: Seq<char>, pos: nat, k: nat) -> Option<nat>
    decreases s.len() - k,
{
    if byte_offset(s, k) == pos {
        Some(k)
    } else if k >= s.len() || byte_offset(s, k) > pos {
        None
    } else {
        boundary_from(s, pos, k + 1)
    }
}

/// The number of characters in the first `pos` bytes of `s`, where a character starts there
/// (or `pos` is the end).
pub open spec fn boundary(s: Seq<char>, pos: nat) -> Option<nat> {
    boundary_from(s, pos, 0)
}

/// The characters before byte `pos` of `s`.
pub open spec fn prefix_at(s: Seq<char>, pos: nat) -> Seq<char> {
    match boundary(s, pos) {
        Some(k) => s.take(k as int),
        None => s,
    }
}

/// The characters of `input` before byte `position`, which starts a character or is the end.
fn prefix_chars(input: &str, position: usize) -> (r: Vec<char>)
    requires
        boundary(input@, position as nat) is Some,
    ensures
        r@ == prefix_at(input@, position as nat),
        r@.len() <= input@.len(),
{
    let s = chars_of(input);
    let ghost sv = s@;
    let mut k: usize = 0;
    let mut off: u128 = 0;
    proof {
        assert(sv.take(0) =~= Seq::<char>::empty());
    }
    while k < s.len() && off < position as u128
        invariant
            sv == s@,
            sv == input@,
            k <= s@.len(),
            off == byte_offset(sv, k as nat),
            boundary_from(sv, position as nat, 0) == boundary_from(sv, position as nat, k as nat),
            boundary_from(sv, position as nat, 0) is Some,
        decreases s.len() - k,
    {
        proof {
            lemma_byte_offset_step(sv, k as nat);
            lemma_byte_offset_bound(sv, (k + 1) as nat);
        }
        off = off + crate::lexer::char_len(s[k]) as u128;
        k = k + 1;
    }
    let mut r: Vec<char> = Vec::new();
    let mut j: usize = 0;
    while j < k
        invariant
            j <= k <= s@.len(),
            sv == s@,
            r@ == sv.take(j as int),
        decreases k - j,
    {
        proof {
            assert(sv.take(j + 1) =~= sv.take(j as int).push(sv[j as int]));
        }
        r.push(s[j]);
        j = j + 1;
    }
    r
}

/// The characters after the last line break of `s`.
pub open spec fn last_line(s: Seq<char>) -> Seq<char>
    decreases s.len(),
{
    if s.len() == 0 {
        s
    } else if s.last() == '\n' {
        Seq::empty()
    } else {
        last_line(s.drop_last()).push(s.last())
    }
}

/// `n` spaces.
pub open spec fn spaces(n: nat) -> Seq<char> {
    Seq::new(n, |i: int| ' ')
}

/// The text that a new line at the end of `before` starts with, when `input` waits for more:
/// a line break and four spaces per open delimiter (none inside a string).
pub open spec fn newline_text(input: Seq<char>, before: Seq<char>) -> Option<Seq<char>> {
    match delims(input) {
        Ok((d, ins)) => if ins || d.len() > 0 {
            match delims(before) {
                Ok((d2, ins2)) => Some(seq!['\n'] + spaces(if ins2 { 0 } else { d2.len() * 4 })),
                Err(_) => None,
            }
        } else {
            None
        },
        Err(_) => None,
    }
}

fn push_spaces(s: &mut String, n: usize)
    ensures
        final(s)@ == old(s)@ + spaces(n as nat),
{
    let mut i: usize = 0;
    while i < n
        invariant
            i <= n,
            s@ == old(s)@ + spaces(i as nat),
        decreases n - i,
    {
        push_char(s, ' ');
        proof {
            assert(spaces((i + 1) as nat) =~= spaces(i as nat).push(' '));
        }
        i = i + 1;
    }
}

/// The text to insert when the user breaks the line at byte `position`: nothing special
/// unless the input waits for more, else a line break indented to the open delimiters.
pub fn indented_newline(input: &str, position: usize) -> (r: Option<String>)
    requires
        boundary(input@, position as nat) is Some,
        input@.len() <= usize::MAX / 4,
    ensures
        match newline_text(input@, prefix_at(input@, position as nat)) {
            Some(t) => r matches Some(x) && x@ == t,
            None => r is None,
        },
{
    match validate_input(input) {
        Validation::Incomplete => {},
        _ => {
            return None;
        },
    }
    let before = prefix_chars(input, position);
    let text = string_of(&before);
    match delimiter_state(text.as_str()) {
        Ok((d, ins)) => {
            proof {
                lemma_delims_depth(before@);
            }
            let n: usize = if ins {
                0
            } else {
                d.len() * 4
            };
            let mut t = String::new();
            push_char(&mut t, '\n');
            push_spaces(&mut t, n);
            Some(t)
        },
        Err(_) => None,
    }
}

/// The delimiters owed after `s` are no more than its characters.
proof fn lemma_delims_depth(s: Seq<char>)
    ensures
        delims(s) matches Ok((d, _)) ==> d.len() <= s.len(),
    decreases s.len(),
{
    if s.len() > 0 {
        lemma_delims_depth(s.drop_last());
    }
}

/// Whether a line holds only blanks and tabs, and at least one.
pub open spec fn indent_only(l: Seq<char>) -> bool {
    l.len() > 0 && forall|i: int| 0 <= i < l.len() ==> (#[trigger] l[i] == ' ' || l[i] == '\t')
}

/// Where a closing delimiter typed at the start of a line goes, given the characters `before`
/// it: the byte where the line starts, and the line's text dedented to the delimiter's depth.
pub open spec fn dedent(before: Seq<char>, position: nat, closing: char) -> Option<(nat, Seq<char>)> {
    let line = last_line(before);
    if !indent_only(line) {
        None
    } else {
        match delims(before) {
            Ok((d, ins)) => if ins || d.len() == 0 || d.last() != closing {
                None
            } else {
                Some(((position - line.len()) as nat, spaces(((d.len() - 1) * 4) as nat).push(closing)))
            },
            Err(_) => None,
        }
    }
}

proof fn lemma_last_line(s: Seq<char>)
    ensures
        last_line(s).len() <= s.len(),
        last_line(s) =~= s.subrange(s.len() - last_line(s).len(), s.len() as int),
    decreases s.len(),
{
    if s.len() > 0 && s.last() != '\n' {
        lemma_last_line(s.drop_last());
    }
}

proof fn lemma_byte_len_at_least(s: Seq<char>)
    ensures
        byte_len(s) >= s.len(),
    decreases s.len(),
{
    if s.len() > 0 {
        lemma_byte_len_at_least(s.drop_last());
    }
}

/// Where a closing delimiter typed at byte `position` goes: when the line so far holds only
/// indentation and the delimiter closes the innermost open one, the line is replaced from its
/// start by the indentation of that depth and the delimiter.
pub fn dedented_closer(input: &str, position: usize, closing: char) -> (r: Option<(usize, String)>)
    requires
        boundary(input@, position as nat) is Some,
        input@.len() <= usize::MAX / 4,
    ensures
        match dedent(prefix_at(input@, position as nat), position as nat, closing) {
            Some((start, t)) => r matches Some((x, y)) && x == start && y@ == t,
            None => r is None,
        },
{
    let before = prefix_chars(input, position);
    let ghost b = before@;
    proof {
        lemma_last_line(b);
        lemma_boundary(input@, position as nat, 0);
        lemma_byte_len_at_least(b);
    }
    let mut start: usize = before.len();
    proof {
        assert(b.take(b.len() as int) =~= b);
        assert(b.subrange(b.len() as int, b.len() as int) =~= Seq::<char>::empty());
        assert(last_line(b) =~= last_line(b.take(b.len() as int)) + b.subrange(b.len() as int, b.len() as int));
    }
    while start > 0 && before[start - 1] != '\n'
        invariant
            start <= before@.len(),
            b == before@,
            last_line(b) == last_line(b.take(start as int)) + b.subrange(start as int, b.len() as int),
            forall|i: int| start <= i < b.len() ==> b[i] != '\n',
        decreases start,
    {
        proof {
            assert(b.take(start as int).drop_last() =~= b.take(start - 1));
            assert(b.take(start as int).last() == b[start - 1]);
            assert(b.subrange(start - 1, b.len() as int) =~= seq![b[start - 1]] + b.subrange(start as int, b.len() as int));
        }
        start = start - 1;
    }
    proof {
        if start > 0 {
            assert(b.take(start as int).last() == b[start - 1]);
        } else {
            assert(b.take(0) =~= Seq::<char>::empty());
        }
        assert(last_line(b) =~= b.subrange(start as int, b.len() as int));
    }
    let line_len = before.len() - start;
    if line_len == 0 {
        return None;
    }
    let mut i = start;
    while i < before.len()
        invariant
            start <= i <= before@.len(),
            b == before@,
            b == prefix_at(input@, position as nat),
            last_line(b) =~= b.subrange(start as int, b.len() as int),
            forall|j: int| start <= j < i ==> (b[j] == ' ' || b[j] == '\t'),
        decreases before.len() - i,
    {
        if before[i] != ' ' && before[i] != '\t' {
            proof {
                let l = last_line(b);
                assert(l[i - start] == b[i as int]);
                assert(!(l[i - start] == ' ' || l[i - start] == '\t'));
                assert(!indent_only(l));
            }
            return None;
        }
        i = i + 1;
    }
    proof {
        let l = last_line(b);
        assert forall|j: int| 0 <= j < l.len() implies (#[trigger] l[j] == ' ' || l[j] == '\t') by {
            assert(l[j] == b[start + j]);
        }
    }
    let text = string_of(&before);
    match delimiter_state(text.as_str()) {
        Ok((d, ins)) => {
            if ins || d.len() == 0 || d[d.len() - 1] != closing {
                return None;
            }
            proof {
                lemma_delims_depth(b);
            }
            let mut t = String::new();
            push_spaces(&mut t, (d.len() - 1) * 4);
            push_char(&mut t, closing);
            Some((position - line_len, t))
        },
        Err(_) => None,
    }
}

/// A character index found by `boundary_from` lies between `k` and the end, at that byte.
proof fn lemma_boundary(s: Seq<char>, pos: nat, k: nat)
    requires
        k <= s.len(),
        boundary_from(s, pos, k) is Some,
    ensures
        k <= boundary_from(s, pos, k)->0 <= s.len(),
        byte_offset(s, boundary_from(s, pos, k)->0) == pos,
    decreases s.len() - k,
{
    if byte_offset(s, k) != pos {
        lemma_boundary(s, pos, k + 1);
    }
}

// ---------------------------------------------------------------------------
// Running input
// ---------------------------------------------------------------------------

/// The face shown above parser errors.
pub open spec fn face_text() -> Seq<char> {
    r#"
            __,__
   .--.  .-"     "-.  .--.
  / .. \/  .-. .-.  \/ .. \
 | |  '|  /   Y   \  |'  | |
 | \   \  \ 0 | 0 /  /   / |
  \ '- ,\.-"""""""-./, -' /
   ''-' /_   ^ ^   _\ '-''
       |  \._   _./  |
       \   \ '~' /   /
        '._ '-=-' _.'
           '-----'
"#@
}

fn monkey_face() -> (s: &'static str)
    ensures
        s@ == face_text(),
{
    r#"
            __,__
   .--.  .-"     "-.  .--.
  / .. \/  .-. .-.  \/ .. \
 | |  '|  /   Y   \  |'  | |
 | \   \  \ 0 | 0 /  /   / |
  \ '- ,\.-"""""""-./, -' /
   ''-' /_   ^ ^   _\ '-''
       |  \._   _./  |
       \   \ '~' /   /
        '._ '-=-' _.'
           '-----'
"#
}

/// The lines that list parser errors, each after a tab.
pub open spec fn error_lines(errs: Seq<Seq<char>>) -> Seq<char>
    decreases errs.len(),
{
    if errs.len() == 0 {
        Seq::empty()
    } else {
        error_lines(errs.drop_last()) + "\t"@ + errs.last() + "\n"@
    }
}

/// The report of parser errors: the face, a heading, and the errors.
pub open spec fn errors_report(errs: Seq<Seq<char>>) -> Seq<char> {
    face_text() + "\n"@ + "Woops! We ran into some monkey business here!\n"@ + " parser errors:\n"@ + error_lines(errs)
}

/// The report of parser errors, as printed.
pub fn print_parser_errors(errors: &Vec<String>) -> (r: String)
    ensures
        r@ == errors_report(texts_v(errors@)),
{
    let mut r = owned(monkey_face());
    push_str(&mut r, "\n");
    push_str(&mut r, "Woops! We ran into some monkey business here!\n");
    push_str(&mut r, " parser errors:\n");
    let ghost base = r@;
    let ghost ev = texts_v(errors@);
    let mut i: usize = 0;
    proof {
        assert(ev.take(0) =~= Seq::<Seq<char>>::empty());
    }
    while i < errors.len()
        invariant
            i <= errors@.len(),
            ev == texts_v(errors@),
            r@ == base + error_lines(ev.take(i as int)),
        decreases errors.len() - i,
    {
        proof {
            assert(ev.take(i + 1).drop_last() =~= ev.take(i as int));
            assert(ev.take(i + 1).last() == errors@[i as int]@);
        }
        push_str(&mut r, "\t");
        push_str(&mut r, errors[i].as_str());
        push_str(&mut r, "\n");
        proof {
            assert(r@ =~= base + error_lines(ev.take(i + 1)));
        }
        i = i + 1;
    }
    proof {
        assert(ev.take(errors@.len() as int) =~= ev);
        assert(r@ =~= errors_report(ev));
    }
    r
}

/// What running one input does: the text written for it, or why the run cannot go on (a
/// macro call that failed, or a fault). Parser errors are reported instead of running; else the
/// macros are defined and expanded in scope `menv`, and the program is evaluated in scope `env`.
pub open spec fn evaluate_s(rt: SRuntime, env: nat, menv: nat, s: Seq<char>) -> (SRuntime, Result<Seq<char>, Status>) {
    let (p, errs) = parse_source(s);
    if errs.len() > 0 {
        (rt, Ok(errors_report(errs)))
    } else {
        let (rt1, p1) = define_s(rt, menv, p);
        let (rt2, st, p2) = expand_s(rt1, menv, p1);
        match st {
            Status::Going => {
                let (rt3, r) = ev_program(rt2, env, p2, STEPS as nat);
                match r {
                    Ok(v) => (rt3, Ok(inspect(v) + "\n"@)),
                    Err(f) => (rt3, Err(Status::Faulted(f))),
                }
            },
            _ => (rt2, Err(st)),
        }
    }
}

/// Runs one input: parses it, reports its parser errors if it has any, else defines and
/// expands its macros in scope `macro_env` and evaluates it in scope `env`; the text to write
/// is returned, or why the run cannot go on.
pub fn evaluate(input: &str, env: EnvironmentRef, macro_env: EnvironmentRef, runtime: &mut Runtime) -> (r: Result<String, Halt>)
    requires
        input@.len() <= usize::MAX / 4,
    ensures
        final(runtime)@ == evaluate_s(old(runtime)@, env.index as nat, macro_env.index as nat, input@).0,
        match r {
            Ok(t) => evaluate_s(old(runtime)@, env.index as nat, macro_env.index as nat, input@).1 == Ok::<Seq<char>, Status>(t@),
            Err(h) => evaluate_s(old(runtime)@, env.index as nat, macro_env.index as nat, input@).1 == Err::<Seq<char>, Status>(status_v(Some(h))),
        },
{
    let mut lexer = Lexer::new(input);
    let mut parser = Parser::new(&mut lexer);
    let mut program = parser.parse_program();
    if parser.errors().len() > 0 {
        return Ok(print_parser_errors(parser.errors()));
    }
    define_macros(&mut program, macro_env, runtime);
    match try_expand_macros(&mut program, macro_env, runtime) {
        Err(f) => {
            return Err(Halt::Faulted(f));
        },
        Ok(Err(m)) => {
            return Err(Halt::Failed(m));
        },
        Ok(Ok(())) => {},
    }
    match try_eval(&program, env, runtime) {
        Err(f) => Err(Halt::Faulted(f)),
        Ok(v) => {
            let mut t = v.inspect();
            push_str(&mut t, "\n");
            Ok(t)
        },
    }
}

/// Whether a text holds only white space.
pub open spec fn blank(s: Seq<char>) -> bool {
    forall|i: int| 0 <= i < s.len() ==> white(#[trigger] s[i])
}

fn is_blank(s: &String) -> (b: bool)
    ensures
        b == blank(s@),
{
    let v = chars_of(s.as_str());
    let mut i: usize = 0;
    while i < v.len()
        invariant
            i <= v@.len(),
            v@ == s@,
            forall|j: int| 0 <= j < i ==> white(#[trigger] v@[j]),
        decreases v.len() - i,
    {
        if !crate::lexer::is_white(v[i]) {
            return false;
        }
        i = i + 1;
    }
    true
}

/// The abstract value of a session: the input waiting to be run, the two scopes, and the
/// runtime.
pub struct SSession {
    pub buffer: Seq<char>,
    pub env: nat,
    pub macro_env: nat,
    pub runtime: SRuntime,
}

/// A reading session: the input read so far that waits for more, the scope programs run in,
/// the scope macros are defined in, and the runtime that keeps them.
pub struct Session {
    buffer: String,
    env: EnvironmentRef,
    macro_env: EnvironmentRef,
    runtime: Runtime,
}

impl View for Session {
    type V = SSession;

    closed spec fn view(&self) -> SSession {
        SSession {
            buffer: self.buffer@,
            env: self.env.index as nat,
            macro_env: self.macro_env.index as nat,
            runtime: self.runtime@,
        }
    }
}

/// The prompt shown before a line: a fresh one, or a continuation while input waits.
pub open spec fn prompt_s(ss: SSession) -> Seq<char> {
    if ss.buffer.len() == 0 {
        "monkey> "@
    } else {
        "    ... "@
    }
}

/// What reading one more line does: the session after it, and the text written for it or why
/// the session cannot go on. Blank input is dropped; input that waits for a delimiter or a
/// string is kept; input with a closing delimiter that does not match is reported and dropped;
/// other input is run.
pub open spec fn feed_s(ss: SSession, line: Seq<char>) -> (SSession, Result<Seq<char>, Status>) {
    let b = ss.buffer + line;
    if blank(b) {
        (SSession { buffer: Seq::empty(), ..ss }, Ok(Seq::empty()))
    } else {
        match delims(b) {
            Err(c) => (SSession { buffer: Seq::empty(), ..ss }, Ok(errors_report(seq![delim_msg(c)]))),
            Ok((d, ins)) => if ins || d.len() > 0 {
                (SSession { buffer: b, ..ss }, Ok(Seq::empty()))
            } else {
                let (rt1, r) = evaluate_s(ss.runtime, ss.env, ss.macro_env, b);
                (SSession { buffer: Seq::empty(), runtime: rt1, ..ss }, r)
            },
        }
    }
}

/// What is written when the input ends: a report if unfinished input waits.
pub open spec fn finish_s(ss: SSession) -> Seq<char> {
    if blank(ss.buffer) {
        Seq::empty()
    } else {
        errors_report(seq!["unexpected end of input"@])
    }
}

impl Session {
    /// A session with no input waiting, and two empty scopes: one to run programs in, one
    /// for macros.
    pub fn new() -> (s: Session)
        ensures
            s@.buffer == Seq::<char>::empty(),
            s@.env == 0,
            s@.macro_env == 1,
            s@.runtime.envs.len() == 2,
            s@.runtime.output == Seq::<Seq<char>>::empty(),
    {
        let mut runtime = Runtime::new();
        let env = runtime.add(crate::environment::Environment::new());
        let macro_env = runtime.add(crate::environment::Environment::new());
        Session { buffer: String::new(), env, macro_env, runtime }
    }

    /// The number of characters of input waiting for more.
    pub fn pending(&self) -> (n: usize)
        ensures
            n == self@.buffer.len(),
    {
        self.buffer.as_str().unicode_len()
    }

    /// The prompt to show before the next line.
    pub fn prompt(&self) -> (p: &'static str)
        ensures
            p@ == prompt_s(self@),
    {
        if self.buffer.as_str().unicode_len() == 0 {
            "monkey> "
        } else {
            "    ... "
        }
    }

    /// Reads one more line, as read from the input with its line break.
    pub fn feed(&mut self, line: &str) -> (r: Result<String, Halt>)
        requires
            old(self)@.buffer.len() + line@.len() <= usize::MAX / 4,
        ensures
            final(self)@ == feed_s(old(self)@, line@).0,
            match r {
                Ok(t) => feed_s(old(self)@, line@).1 == Ok::<Seq<char>, Status>(t@),
                Err(h) => feed_s(old(self)@, line@).1 == Err::<Seq<char>, Status>(status_v(Some(h))),
            },
    {
        push_str(&mut self.buffer, line);
        if is_blank(&self.buffer) {
            self.buffer = String::new();
            return Ok(String::new());
        }
        match validate_input(self.buffer.as_str()) {
            Validation::Incomplete => Ok(String::new()),
            Validation::Invalid(m) => {
                self.buffer = String::new();
                match m {
                    Some(m) => {
                        let mut v: Vec<String> = Vec::new();
                        v.push(m);
                        proof {
                            assert(texts_v(v@) =~= seq![v@[0]@]);
                        }
                        Ok(print_parser_errors(&v))
                    },
                    None => Ok(String::new()),
                }
            },
            Validation::Valid => {
                let r = evaluate(self.buffer.as_str(), self.env, self.macro_env, &mut self.runtime);
                self.buffer = String::new();
                r
            },
        }
    }

    /// The text to write when the input ends.
    pub fn finish(&self) -> (t: String)
        ensures
            t@ == finish_s(self@),
    {
        if is_blank(&self.buffer) {
            String::new()
        } else {
            let mut v: Vec<String> = Vec::new();
            v.push(owned("unexpected end of input"));
            proof {
                assert(texts_v(v@) =~= seq![v@[0]@]);
            }
            print_parser_errors(&v)
        }
    }

    /// The lines that `puts` printed since they were last taken.
    pub fn take_printed(&mut self) -> (lines: Vec<String>)
        ensures
            final(self)@ == (SSession { runtime: SRuntime { output: Seq::empty(), ..old(self)@.runtime }, ..old(self)@ }),
            lines@.len() == old(self)@.runtime.output.len(),
            forall|i: int| 0 <= i < lines@.len() ==> #[trigger] lines@[i]@ == old(self)@.runtime.output[i],
    {
        self.runtime.take_output()
    }
}

// ---------------------------------------------------------------------------
// Deleting tokens
// ---------------------------------------------------------------------------

/// The byte offsets at which the tokens of `s` from index `p` start, up to the end of input.
pub open spec fn token_starts(s: Seq<char>, p: nat) -> Seq<nat>
    decreases s.len() - p,
{
    let (t, q, e) = lex_next(s, p);
    if t.kind == TokenType::EOF || e <= p || e > s.len() {
        seq![]
    } else {
        seq![byte_offset(s, q)] + token_starts(s, e)
    }
}

/// The extended grapheme clusters of a text, each with the byte offset where it starts, as
/// the `unicode-segmentation` crate splits them (a function of the text alone).
pub uninterp spec fn graphemes(s: Seq<char>) -> Seq<(usize, Seq<char>)>;

/// The extended grapheme clusters of `s` with their byte offsets
/// (`UnicodeSegmentation::grapheme_indices` with `is_extended` set). Trusted: the result is
/// the named one, each cluster copied into a `String`; nothing more is stated of it.
#[verifier::external_body]
fn grapheme_indices(s: &str) -> (r: Vec<(usize, String)>)
    ensures
        r@.len() == graphemes(s@).len(),
        forall|i: int| 0 <= i < r@.len() ==> #[trigger] r@[i].0 == graphemes(s@)[i].0 && r@[i].1@ == graphemes(s@)[i].1,
{
    let mut r: Vec<(usize, String)> = Vec::new();
    for (offset, cluster) in s.grapheme_indices(true) {
        r.push((offset, cluster.to_owned()));
    }
    r
}

/// The offset of the first cluster, from index `i` on, that ends after byte `start`.
pub open spec fn covering_from(g: Seq<(usize, Seq<char>)>, start: nat, i: nat) -> Option<nat>
    decreases g.len() - i,
{
    if i >= g.len() {
        None
    } else if g[i as int].0 + (byte_len(g[i as int].1) as usize) > start {
        Some(g[i as int].0 as nat)
    } else {
        covering_from(g, start, i + 1)
    }
}

/// Where deleting `count` tokens back from byte `position` of `s` starts: the start of the
/// grapheme cluster that holds the start of the `count`-th token before the cursor (or of the
/// text, where there are fewer tokens); nothing to delete at the start or for no tokens.
pub open spec fn deletion_start(s: Seq<char>, position: nat, count: nat) -> Option<nat> {
    if position == 0 || count == 0 {
        None
    } else {
        let pre = prefix_at(s, position);
        let starts = token_starts(pre, 0);
        let start = if count <= starts.len() {
            starts[starts.len() - count]
        } else {
            0
        };
        covering_from(graphemes(pre), start, 0)
    }
}

/// Where deleting `count` tokens back from byte `position` starts: the start of the grapheme
/// cluster holding the start of the `count`-th token before the cursor.
pub fn previous_token_start(input: &str, position: usize, count: u16) -> (r: Option<usize>)
    requires
        boundary(input@, position as nat) is Some,
        input@.len() <= usize::MAX / 4,
    ensures
        match deletion_start(input@, position as nat, count as nat) {
            Some(k) => r == Some(k as usize),
            None => r is None,
        },
{
    if position == 0 || count == 0 {
        return None;
    }
    let before = prefix_chars(input, position);
    let text = string_of(&before);
    let ghost pre = text@;
    let mut lexer = Lexer::new(text.as_str());
    let mut starts: Vec<usize> = Vec::new();
    loop
        invariant
            lexer.wf(),
            lexer.chars() == pre,
            starts@.map_values(|x: usize| x as nat) + token_starts(pre, lexer.pos()) == token_starts(pre, 0),
        ensures
            starts@.map_values(|x: usize| x as nat) == token_starts(pre, 0),
        decreases pre.len() - lexer.pos(),
    {
        let ghost p = lexer.pos();
        proof {
            lexer.lemma_wf();
        }
        let (token, span) = lexer.next_token_with_span();
        if token.token_type() == TokenType::EOF {
            proof {
                assert(token_starts(pre, p) =~= Seq::<nat>::empty());
                assert(starts@.map_values(|x: usize| x as nat) =~= token_starts(pre, 0));
            }
            break;
        }
        let ghost old_starts = starts@;
        starts.push(span.start);
        proof {
            lexer.lemma_wf();
            assert(token_starts(pre, p) == seq![span.start as nat] + token_starts(pre, lexer.pos()));
            assert(starts@.map_values(|x: usize| x as nat) =~= old_starts.map_values(|x: usize| x as nat).push(span.start as nat));
            assert(starts@.map_values(|x: usize| x as nat) + token_starts(pre, lexer.pos()) =~= old_starts.map_values(|x: usize| x as nat) + token_starts(pre, p));
        }
    }
    let c = count as usize;
    let start: usize = if c <= starts.len() {
        starts[starts.len() - c]
    } else {
        0
    };
    let g = grapheme_indices(text.as_str());
    proof {
        assert(starts@.map_values(|x: usize| x as nat).len() == starts@.len());
        if c <= starts.len() {
            assert(starts@.map_values(|x: usize| x as nat)[starts@.len() - c] == starts@[starts@.len() - c] as nat);
        }
        assert(clusters_v(g@) =~= graphemes(pre));
    }
    cluster_covering(&g, start)
}

/// The grapheme clusters of a text with their byte offsets, as values of the logic.
pub open spec fn clusters_v(v: Seq<(usize, String)>) -> Seq<(usize, Seq<char>)> {
    v.map_values(|c: (usize, String)| (c.0, c.1@))
}

/// The offset of the first of `clusters` that ends after byte `start`, if any.
pub fn cluster_covering(clusters: &Vec<(usize, String)>, start: usize) -> (r: Option<usize>)
    ensures
        match covering_from(clusters_v(clusters@), start as nat, 0) {
            Some(k) => r == Some(k as usize),
            None => r is None,
        },
{
    let ghost g = clusters_v(clusters@);
    let mut i: usize = 0;
    while i < clusters.len()
        invariant
            i <= clusters@.len(),
            g == clusters_v(clusters@),
            covering_from(g, start as nat, i as nat) == covering_from(g, start as nat, 0),
        decreases clusters.len() - i,
    {
        let width = crate::builtins::utf8_len(clusters[i].1.as_str());
        proof {
            assert(g[i as int] == (clusters@[i as int].0, clusters@[i as int].1@));
        }
        if (clusters[i].0 as u128) + (width as u128) > (start as u128) {
            return Some(clusters[i].0);
        }
        i = i + 1;
    }
    None
}

} // verus!
