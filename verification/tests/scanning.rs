use stackling::scanner::{operator, parse_int, Scanner};
use stackling::tokens::{Code, TokenType};
use stackling::utils::{
    error, is_alpha, is_alphanumeric, is_digit, number_width, report, runtime_error, substring, window,
    Severity,
};
use std::rc::Rc;

fn scan_all(text: &str) -> (Code, Scanner) {
    let source = text.to_string();
    let mut scanner = Scanner::new(&source);
    let code = scanner.scan_tokens();
    (code, scanner)
}

fn messages(scanner: &Scanner) -> Vec<String> {
    scanner.errors.iter().map(|d| d.message.clone()).collect()
}

#[test]
fn scans_numbers_and_operator() {
    let (code, scanner) = scan_all("1 2 +");
    assert!(!scanner.had_error);
    assert_eq!(code.tokens.len(), 4);
    assert!(matches!(code.tokens[0].type_, TokenType::Int(1)));
    assert!(matches!(code.tokens[1].type_, TokenType::Int(2)));
    assert!(matches!(code.tokens[2].type_, TokenType::Plus));
    assert!(matches!(code.tokens[3].type_, TokenType::EOF));
    assert_eq!(code.tokens[1].lexeme, "2");
    assert_eq!((code.tokens[2].pos, code.tokens[2].end, code.tokens[2].line), (4, 5, 0));
    assert_eq!(*code.tokens[2].source, "1 2 +");
    assert!(code.labels.is_empty());
}

#[test]
fn empty_text_is_one_closing_token() {
    let (code, scanner) = scan_all("");
    assert!(!scanner.had_error);
    assert_eq!(code.tokens.len(), 1);
    assert!(matches!(code.tokens[0].type_, TokenType::EOF));
    assert_eq!(code.tokens[0].lexeme, "");
}

#[test]
fn every_punctuation_mark_is_an_operator() {
    let (code, scanner) = scan_all(",.;@?~=*%^:+|&-!<>/#$");
    assert!(!scanner.had_error);
    assert_eq!(code.tokens.len(), 22);
    assert!(matches!(code.tokens[0].type_, TokenType::Comma));
    assert!(matches!(code.tokens[1].type_, TokenType::Dot));
    assert!(matches!(code.tokens[2].type_, TokenType::Semicolon));
    assert!(matches!(code.tokens[3].type_, TokenType::At));
    assert!(matches!(code.tokens[4].type_, TokenType::Question));
    assert!(matches!(code.tokens[5].type_, TokenType::Tilde));
    assert!(matches!(code.tokens[6].type_, TokenType::Equal));
    assert!(matches!(code.tokens[7].type_, TokenType::Star));
    assert!(matches!(code.tokens[8].type_, TokenType::Mod));
    assert!(matches!(code.tokens[9].type_, TokenType::Jump));
    assert!(matches!(code.tokens[10].type_, TokenType::Colon));
    assert!(matches!(code.tokens[11].type_, TokenType::Plus));
    assert!(matches!(code.tokens[12].type_, TokenType::Or));
    assert!(matches!(code.tokens[13].type_, TokenType::And));
    assert!(matches!(code.tokens[14].type_, TokenType::Minus));
    assert!(matches!(code.tokens[15].type_, TokenType::Bang));
    assert!(matches!(code.tokens[16].type_, TokenType::Less));
    assert!(matches!(code.tokens[17].type_, TokenType::Greater));
    assert!(matches!(code.tokens[18].type_, TokenType::Slash));
    assert!(matches!(code.tokens[19].type_, TokenType::Hash));
    assert!(matches!(code.tokens[20].type_, TokenType::Print));
    assert!(matches!(operator('x'), None));
    assert!(matches!(operator('$'), Some(TokenType::Print)));
}

#[test]
fn white_space_and_lines() {
    let (code, scanner) = scan_all("1\t\r\n  22\n\n+");
    assert!(!scanner.had_error);
    assert_eq!(code.tokens.len(), 4);
    assert_eq!((code.tokens[0].pos, code.tokens[0].end, code.tokens[0].line), (0, 1, 0));
    assert_eq!((code.tokens[1].pos, code.tokens[1].end, code.tokens[1].line), (2, 4, 1));
    assert_eq!((code.tokens[2].pos, code.tokens[2].end, code.tokens[2].line), (0, 1, 3));
    assert_eq!(code.tokens[3].line, 3);
}

#[test]
fn float_literals() {
    let (code, scanner) = scan_all("12.50 7");
    assert!(!scanner.had_error);
    assert!(matches!(code.tokens[0].type_, TokenType::Float));
    assert_eq!(code.tokens[0].lexeme, "12.50");
    assert!(matches!(code.tokens[1].type_, TokenType::Int(7)));
    let (code, scanner) = scan_all("1. 2");
    assert!(scanner.had_error);
    assert_eq!(messages(&scanner), vec!["Expecting digits after decimal point"]);
    assert!(matches!(code.tokens[0].type_, TokenType::Float));
    assert_eq!(code.tokens[0].lexeme, "1.");
    assert!(matches!(code.tokens[1].type_, TokenType::Int(2)));
}

#[test]
fn integer_literals() {
    assert_eq!(parse_int("0"), Some(0));
    assert_eq!(parse_int("007"), Some(7));
    assert_eq!(parse_int("9223372036854775807"), Some(i64::MAX));
    assert_eq!(parse_int("9223372036854775808"), None);
    assert_eq!(parse_int("99999999999999999999999"), None);
    let (code, scanner) = scan_all("9223372036854775808 1");
    assert!(scanner.had_error);
    assert_eq!(messages(&scanner), vec!["Integer literal out of range"]);
    assert!(matches!(code.tokens[0].type_, TokenType::Int(1)));
}

#[test]
fn identifiers() {
    let (code, scanner) = scan_all("foo _b4r x");
    assert!(!scanner.had_error);
    assert!(matches!(code.tokens[0].type_, TokenType::Identifier));
    assert_eq!(code.tokens[0].lexeme, "foo");
    assert_eq!(code.tokens[1].lexeme, "_b4r");
    assert_eq!(code.tokens[2].lexeme, "x");
    assert_eq!(code.tokens.len(), 4);
}

#[test]
fn string_literals() {
    let (code, scanner) = scan_all("\"a b\" \"\" \"x\\\"y\" \"p\\\\\"");
    assert!(!scanner.had_error);
    assert!(matches!(&code.tokens[0].type_, TokenType::String(s) if s.as_str() == "a b"));
    assert_eq!(code.tokens[0].lexeme, "\"a b\"");
    assert!(matches!(&code.tokens[1].type_, TokenType::String(s) if s.is_empty()));
    assert!(matches!(&code.tokens[2].type_, TokenType::String(s) if s.as_str() == "x\\\"y"));
    assert!(matches!(&code.tokens[3].type_, TokenType::String(s) if s.as_str() == "p\\\\"));
    assert_eq!(code.tokens.len(), 5);
}

#[test]
fn string_over_lines() {
    let (code, scanner) = scan_all("\"a\nb\" 1");
    assert!(!scanner.had_error);
    assert!(matches!(&code.tokens[0].type_, TokenType::String(s) if s.as_str() == "a\nb"));
    assert_eq!(code.tokens[0].line, 1);
    assert_eq!(code.tokens[1].line, 1);
    assert_eq!((code.tokens[1].pos, code.tokens[1].end), (3, 4));
}

#[test]
fn unterminated_string() {
    let (code, scanner) = scan_all("1 \"abc");
    assert!(scanner.had_error);
    assert_eq!(messages(&scanner), vec!["Unterminated string"]);
    assert_eq!(scanner.errors[0].severity, Severity::Error);
    assert_eq!((scanner.errors[0].pos, scanner.errors[0].len, scanner.errors[0].line), (2, 4, 0));
    assert_eq!(code.tokens.len(), 2);
    let (_, scanner) = scan_all("1 [abc");
    assert_eq!(messages(&scanner), vec!["Unterminated string"]);
}

#[test]
fn labels_point_at_the_token_before() {
    let (code, scanner) = scan_all("1 [one] 2 3 [three] [also] +");
    assert!(!scanner.had_error);
    assert_eq!(code.tokens.len(), 5);
    assert_eq!(code.labels.len(), 3);
    assert_eq!(code.lookup(&"one".to_string()), Some(0));
    assert_eq!(code.lookup(&"three".to_string()), Some(2));
    assert_eq!(code.lookup(&"also".to_string()), Some(2));
    assert_eq!(code.lookup(&"none".to_string()), None);
}

#[test]
fn later_label_of_a_name_counts() {
    let (code, scanner) = scan_all("1 [a] 2 [a]");
    assert!(!scanner.had_error);
    assert_eq!(code.lookup(&"a".to_string()), Some(1));
}

#[test]
fn label_before_any_token_is_an_error() {
    let (code, scanner) = scan_all("[start] 1");
    assert!(scanner.had_error);
    assert_eq!(messages(&scanner), vec!["Label before any token"]);
    assert!(code.labels.is_empty());
    assert_eq!(code.tokens.len(), 2);
}

#[test]
fn nested_blocks() {
    let (code, scanner) = scan_all("1 {2 [x]\n3} 4");
    assert!(!scanner.had_error);
    assert_eq!(code.tokens.len(), 4);
    assert!(code.labels.is_empty());
    match &code.tokens[1].type_ {
        TokenType::Code(inner) => {
            assert_eq!(inner.tokens.len(), 3);
            assert!(matches!(inner.tokens[0].type_, TokenType::Int(2)));
            assert!(matches!(inner.tokens[1].type_, TokenType::Int(3)));
            assert_eq!(inner.tokens[1].line, 1);
            assert_eq!(*inner.tokens[0].source, "2 [x]\n3");
            assert_eq!(inner.lookup(&"x".to_string()), Some(0));
        }
        other => panic!("expected a block, found {:?}", other),
    }
    assert_eq!(code.tokens[1].lexeme, "");
    assert_eq!(code.tokens[2].line, 1);
}

#[test]
fn first_closing_brace_ends_a_block() {
    let (code, scanner) = scan_all("{ {1} 2}");
    assert!(scanner.had_error);
    assert_eq!(messages(&scanner), vec!["Unterminated code block", "Unexpected character"]);
    assert!(matches!(code.tokens[0].type_, TokenType::Code(_)));
    assert!(matches!(code.tokens[1].type_, TokenType::Int(2)));
    let (code, scanner) = scan_all("{\"}\" 1}");
    assert!(scanner.had_error);
    assert!(matches!(code.tokens[0].type_, TokenType::Code(_)));
}

#[test]
fn unterminated_block() {
    let (code, scanner) = scan_all("1 {2 3");
    assert!(scanner.had_error);
    assert_eq!(messages(&scanner), vec!["Unterminated code block"]);
    assert_eq!(code.tokens.len(), 2);
}

#[test]
fn several_errors_in_one_pass() {
    let (code, scanner) = scan_all("1 ` 2 ' 3");
    assert!(scanner.had_error);
    assert_eq!(messages(&scanner), vec!["Unexpected character", "Unexpected character"]);
    assert_eq!((scanner.errors[1].pos, scanner.errors[1].len), (6, 1));
    assert_eq!(code.tokens.len(), 4);
}

#[test]
fn character_classes() {
    assert!(is_digit('0') && is_digit('9') && !is_digit('a') && !is_digit('/') && !is_digit(':'));
    assert!(is_alpha('a') && is_alpha('z') && is_alpha('A') && is_alpha('Z') && is_alpha('_'));
    assert!(!is_alpha('0') && !is_alpha('[') && !is_alpha('`') && !is_alpha('{') && !is_alpha('@'));
    assert!(is_alphanumeric('a') && is_alphanumeric('5') && is_alphanumeric('_') && !is_alphanumeric('-'));
}

#[test]
fn substrings() {
    let s = "hello".to_string();
    assert_eq!(substring(&s, 1, 3), "el");
    assert_eq!(substring(&s, 0, 5), "hello");
    assert_eq!(substring(&s, 2, 2), "");
    assert_eq!(substring(&s, 3, 9), "lo");
    assert_eq!(substring(&s, 7, 9), "");
    assert_eq!(substring(&s, 3, 1), "");
    assert_eq!(substring(&"a\u{e9}b".to_string(), 1, 2), "\u{e9}");
}

#[test]
fn reports() {
    let source = Rc::new("1 +".to_string());
    let d = error(&source, "bad", 2, 1, 0);
    assert_eq!(d.severity, Severity::Error);
    assert_eq!(d.label(), "error");
    assert_eq!((d.message.as_str(), d.pos, d.len, d.line), ("bad", 2, 1, 0));
    assert!(Rc::ptr_eq(&d.source, &source));
    let d = runtime_error(&source, "worse", 0, 1, 3);
    assert_eq!(d.severity, Severity::RuntimeError);
    assert_eq!(d.label(), "runtime error");
    assert_eq!((d.message.as_str(), d.pos, d.len, d.line), ("worse", 0, 1, 3));
    let d = report(&source, "m", Severity::Error, 1, 2, 3);
    assert_eq!((d.severity, d.pos, d.len, d.line), (Severity::Error, 1, 2, 3));
}

#[test]
fn excerpt_windows() {
    assert_eq!(window(0, 0), (0, 0));
    assert_eq!(window(3, 1), (0, 3));
    assert_eq!(window(10, 0), (0, 5));
    assert_eq!(window(10, 2), (0, 5));
    assert_eq!(window(10, 3), (1, 6));
    assert_eq!(window(10, 6), (4, 9));
    assert_eq!(window(10, 7), (5, 10));
    assert_eq!(window(10, 9), (5, 10));
    assert_eq!(window(5, 2), (0, 5));
}

#[test]
fn line_number_widths() {
    assert_eq!(number_width(0), 1);
    assert_eq!(number_width(1), 1);
    assert_eq!(number_width(10), 1);
    assert_eq!(number_width(11), 2);
    assert_eq!(number_width(100), 2);
    assert_eq!(number_width(101), 3);
    assert_eq!(number_width(1000), 3);
    assert_eq!(number_width(usize::MAX), 20);
}

#[test]
fn tokens_refer_to_the_text_they_were_scanned_from() {
    let text = "1 {2 \"x\"}\n+ f";
    let (code, scanner) = scan_all(text);
    assert!(!scanner.had_error);
    assert_eq!(code.tokens.len(), 5);
    for t in &code.tokens {
        assert_eq!(*t.source, text);
    }
    match &code.tokens[1].type_ {
        TokenType::Code(inner) => {
            assert_eq!(inner.tokens.len(), 3);
            for t in &inner.tokens {
                assert_eq!(*t.source, "2 \"x\"");
            }
        }
        other => panic!("expected a block, found {:?}", other),
    }
}
