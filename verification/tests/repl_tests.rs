use monkey::repl::{cluster_covering, dedented_closer, indented_newline, previous_token_start, validate_input, Session, Validation};
use unicode_segmentation::UnicodeSegmentation;

fn run(input: &str) -> String {
    let mut session = Session::new();
    let mut output = String::new();
    let mut lines = input.split_inclusive('\n');
    loop {
        output.push_str(session.prompt());
        match lines.next() {
            None => {
                output.push_str(&session.finish());
                break;
            }
            Some(line) => output.push_str(&session.feed(line).unwrap()),
        }
    }
    output
}

#[test]
fn deletes_monkey_tokens_instead_of_whitespace_delimited_words() {
    for (input, deleted_characters) in [
        ("addTwo(2)", 1),
        ("addTwo(2", 1),
        ("addTwo(", 1),
        ("addTwo", 6),
        ("x ==", 2),
        ("x != \t", 4),
        ("let _name", 5),
        ("foo123", 3),
        ("x + 123  ", 5),
        ("x;\n    ", 6),
        (" \t\n", 3),
        ("\"hello world\"", 13),
        ("\"hello world", 12),
        ("\"你好\"", 4),
        ("\"e\u{301}🙂\"", 4),
        ("e\u{301}", 1),
        ("x @", 1),
    ] {
        assert_eq!(
            previous_token_start(input, input.len(), 1).map(|start| input[start..].graphemes(true).count()),
            Some(deleted_characters),
            "{input:?}"
        );
    }
}

#[test]
fn deletes_only_before_the_cursor_and_supports_repeat_counts() {
    assert_eq!(previous_token_start("addTwo(123)", "addTwo(12".len(), 1), Some("addTwo(".len()));
    assert_eq!(previous_token_start("addTwo(2)", "addTwo(2)".len(), 2), Some("addTwo(".len()));
    assert_eq!(previous_token_start("addTwo(2)", "addTwo(2)".len(), 10), Some(0));
    assert_eq!(previous_token_start("addTwo(2)", 0, 1), None);
    assert_eq!(previous_token_start("addTwo(2)", 9, 0), None);
}

#[test]
fn dedents_matching_closers_at_the_start_of_a_line() {
    for (input, closing, expected) in [
        ("fn() {\n    ", '}', "}"),
        ("fn() {\n    if (true) {\n        ", '}', "    }"),
        ("[1,\n    ", ']', "]"),
        ("add(1,\n    ", ')', ")"),
        ("fn() {\n    \"{[(\";\n    ", '}', "}"),
        ("fn() {\n\t", '}', "}"),
    ] {
        assert_eq!(
            dedented_closer(input, input.len(), closing),
            Some((input.rfind('\n').unwrap() + 1, expected.to_owned())),
            "{input:?}"
        );
    }
}

#[test]
fn leaves_strings_inline_closers_and_mismatched_delimiters_unchanged() {
    for (input, closing) in [
        ("fn() {\n    \"hello\n    ", '}'),
        ("fn() {\n    x; ", '}'),
        ("fn() {\n    ", ']'),
        ("([)]\n    ", ')'),
        ("    ", '}'),
        ("fn() {\n", '}'),
    ] {
        assert_eq!(dedented_closer(input, input.len(), closing), None, "{input:?}");
    }
}

#[test]
fn dedents_at_the_cursor_without_replacing_the_rest_of_the_line() {
    let prefix = "fn() {\n    ";
    let input = format!("{prefix};\n1 + 2");
    assert_eq!(dedented_closer(&input, prefix.len(), '}'), Some(("fn() {\n".len(), "}".to_owned())));
}

#[test]
fn indents_continuations_without_changing_strings() {
    for (input, expected) in [
        ("fn(x) {", "\n    "),
        ("fn(x) {\n    x + 2;", "\n    "),
        ("fn(x) {\n    if (true) {", "\n        "),
        ("fn(x) {\n    if (true) { x; }", "\n    "),
        ("[1,", "\n    "),
        ("add(", "\n    "),
        ("fn() {\n    \"{[(\";", "\n    "),
        ("fn() {\n    \"hello", "\n"),
    ] {
        assert_eq!(indented_newline(input, input.len()), Some(expected.to_owned()), "{input:?}");
    }
}

#[test]
fn indents_at_the_cursor_and_preserves_default_submission() {
    let input = "fn() {\n    if (true) {";
    assert_eq!(indented_newline(input, "fn() {".len()), Some("\n    ".to_owned()));
    for input in ["", "1 + 2", "fn() {}", "([)]"] {
        assert_eq!(indented_newline(input, input.len()), None, "{input:?}");
    }
}

#[test]
fn waits_for_unclosed_delimiters_and_strings() {
    for input in ["fn(arr, f) {", "[1,\n2,", "add(1,", "\"hello", "fn() {\n\n"] {
        assert!(matches!(validate_input(input), Validation::Incomplete), "{input:?}");
    }
    for input in ["fn(arr, f) { f(arr); };", "[1,\n2]", "\"{[(\"", "\"hello\nworld\""] {
        assert!(matches!(validate_input(input), Validation::Valid), "{input:?}");
    }
    for input in ["([)]", "}"] {
        assert!(matches!(validate_input(input), Validation::Invalid(_)), "{input:?}");
    }
}

#[test]
fn evaluates_multiline_function_after_closing_brace() {
    let output = run("let addTwo = fn(x) {\n\n x + 2;\n};\naddTwo(2)\n");
    assert!(output.contains("(x + 2)"), "{output}");
    assert!(output.contains("monkey> 4\n"), "{output}");
    assert!(!output.contains("parser errors:"), "{output}");
}

#[test]
fn rejects_unfinished_function_at_end_of_input() {
    let output = run("let unfinished = fn(x) {\nx + 1;\n");
    assert!(output.contains("unexpected end of input"), "{output}");
    assert!(!output.contains("fn(x)"), "{output}");
}

#[test]
fn reports_parser_errors_and_mismatched_delimiters() {
    let output = run("let = 1;\n");
    assert!(output.contains("Woops! We ran into some monkey business here!\n parser errors:\n\texpected next token to be IDENT, got ASSIGN instead\n"), "{output}");
    let output = run("(]\n");
    assert!(output.contains("\tunexpected closing delimiter: ]\n"), "{output}");
}

#[test]
fn macros_defined_in_one_line_expand_in_the_next() {
    let output = run("let twice = macro(x) { quote(unquote(x) + unquote(x)); };\ntwice(3)\n");
    assert!(output.ends_with("monkey> 6\nmonkey> "), "{output}");
}

#[test]
fn puts_lines_are_kept_for_the_caller() {
    let mut session = Session::new();
    assert_eq!(session.feed("puts(\"hi\")\n").unwrap(), "NULL\n");
    assert_eq!(session.take_printed(), vec!["hi".to_string()]);
    assert_eq!(session.feed("   \n").unwrap(), "");
    assert_eq!(session.prompt(), "monkey> ");
    assert_eq!(session.feed("[1,\n").unwrap(), "");
    assert_eq!(session.prompt(), "    ... ");
}

#[test]
fn finds_the_cluster_that_covers_a_byte() {
    let clusters = vec![(0, "a".to_string()), (1, "é".to_string()), (3, "b".to_string())];
    assert_eq!(cluster_covering(&clusters, 0), Some(0));
    assert_eq!(cluster_covering(&clusters, 2), Some(1));
    assert_eq!(cluster_covering(&clusters, 3), Some(3));
    assert_eq!(cluster_covering(&clusters, 4), None);
    assert_eq!(cluster_covering(&Vec::new(), 0), None);
}
