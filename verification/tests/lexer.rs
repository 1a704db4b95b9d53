use interp::error::ErrorKind;
use interp::lexer::Lexer;
use interp::token::{Token, TokenType};

fn scan(source: &str) -> Vec<Token> {
    Lexer::new(source.to_string()).tokenize().expect("the source scans")
}

fn kinds(source: &str) -> Vec<String> {
    scan(source).iter().map(|t| format!("{:?}", t.ty)).collect()
}

#[test]
fn punctuation_and_operators() {
    assert_eq!(
        kinds("( ) { } , . ; - + * / ! != = == > >= < <= .."),
        vec![
            "LeftParen", "RightParen", "LeftBrace", "RightBrace", "Comma", "Dot", "Semicolon",
            "Minus", "Plus", "Star", "Slash", "Bang", "BangEqual", "Equal", "EqualEqual",
            "Greater", "GreaterEqual", "Less", "LessEqual", "DotDot",
        ]
    );
}

#[test]
fn number_keeps_trailing_dot_apart() {
    let tokens = scan("1..5 2.5 7.");
    let shown: Vec<String> = tokens.iter().map(|t| format!("{:?}", t.ty)).collect();
    assert_eq!(
        shown,
        vec!["Number(\"1\")", "DotDot", "Number(\"5\")", "Number(\"2.5\")", "Number(\"7\")", "Dot"]
    );
    assert_eq!(tokens[3].lexeme, "2.5");
}

#[test]
fn string_excludes_quotes() {
    let tokens = scan("\"hi there\"");
    assert_eq!(tokens.len(), 1);
    assert_eq!(tokens[0].lexeme, "\"hi there\"");
    assert!(matches!(&tokens[0].ty, TokenType::String(s) if s == "hi there"));
}

#[test]
fn keywords_and_identifiers() {
    assert_eq!(
        kinds("let fn while for in and or if else null return true false this super class lettuce _x1"),
        vec![
            "Let", "Fn", "While", "For", "In", "And", "Or", "If", "Else", "Null", "Return",
            "True", "False", "This", "Super", "Class", "Identifier", "Identifier",
        ]
    );
}

#[test]
fn lines_are_counted() {
    let tokens = scan("a\nb\n\nc");
    let lines: Vec<usize> = tokens.iter().map(|t| t.line).collect();
    assert_eq!(lines, vec![1, 2, 4]);
}

#[test]
fn errors_accumulate() {
    let errors = Lexer::new("a # b\n@ \"open".to_string()).tokenize().unwrap_err();
    assert_eq!(errors.len(), 3);
    assert_eq!(errors[0].kind, ErrorKind::Syntax);
    assert_eq!(errors[0].line, 1);
    assert_eq!(errors[0].message, "Unexpected Token '#'");
    assert_eq!(errors[1].line, 2);
    assert_eq!(errors[1].message, "Unexpected Token '@'");
    assert_eq!(errors[2].line, 2);
    assert_eq!(errors[2].message, "Unterminated string");
}

#[test]
fn non_ascii_names() {
    let tokens = scan("été = 1;");
    assert_eq!(tokens[0].lexeme, "été");
    assert!(matches!(tokens[0].ty, TokenType::Identifier));
    assert_eq!(tokens.len(), 4);
}

#[test]
fn lexemes_with_blanks_scan_to_the_same_tokens() {
    let source = "let añb=1.5;fn f(x){return x..2.;}\n\"a b\\n\"!=!(a<=b)or_1 and\tc; 7.x while";
    let first = scan(source);
    let mut joined = String::new();
    for t in &first {
        joined.push_str(&t.lexeme);
        joined.push(' ');
    }
    let second = scan(&joined);
    assert_eq!(first.len(), second.len());
    for (a, b) in first.iter().zip(second.iter()) {
        assert_eq!(a.lexeme, b.lexeme);
        assert_eq!(format!("{:?}", a.ty), format!("{:?}", b.ty));
    }
    assert_eq!(first.len(), 34);
}

#[test]
fn blanks_end_names_and_numbers() {
    assert_eq!(kinds("a b\tc\rd\ne"), vec!["Identifier"; 5]);
    assert_eq!(kinds(" 1 2 "), vec!["Number(\"1\")", "Number(\"2\")"]);
    assert!(scan("").is_empty());
    assert!(scan(" \t\r\n").is_empty());
}
