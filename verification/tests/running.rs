use stackling::engine::{Fault, FloatWork, Interpreter, Number, Step};
use stackling::scanner::Scanner;
use stackling::tokens::{Code, JoinError, Label, Token, TokenType};
use stackling::utils::Severity;
use stackling::value::{int_binary, jump_target, text_binary, Object};
use std::rc::Rc;

fn scan(text: &str) -> Code {
    let source = text.to_string();
    let mut scanner = Scanner::new(&source);
    let code = scanner.scan_tokens();
    assert!(!scanner.had_error, "lexical error in {:?}", text);
    code
}

fn as_float(n: &Number) -> f64 {
    match n {
        Number::Int(x) => *x as f64,
        Number::Float(bits) => f64::from_bits(*bits),
    }
}

fn answer(op: &TokenType, work: &FloatWork) -> Object {
    match work {
        FloatWork::Literal(text) => Object::Float(text.parse::<f64>().unwrap().to_bits()),
        FloatWork::Arith(a, b) => {
            let (x, y) = (as_float(a), as_float(b));
            let r = match op {
                TokenType::Plus => x + y,
                TokenType::Minus => x - y,
                TokenType::Star => x * y,
                TokenType::Slash => x / y,
                _ => x % y,
            };
            Object::Float(r.to_bits())
        }
        FloatWork::Compare(a, b) => {
            let (x, y) = (as_float(a), as_float(b));
            let r = match op {
                TokenType::Equal => x == y,
                TokenType::Greater => x > y,
                _ => x < y,
            };
            Object::Int(r as i64)
        }
        FloatWork::Truncate(bits) | FloatWork::Offset(bits) => Object::Int(f64::from_bits(*bits) as i64),
        FloatWork::Show(bits) | FloatWork::Prepend(_, bits) | FloatWork::Append(bits, _) => {
            Object::String(Rc::new(format!("{}", f64::from_bits(*bits))))
        }
    }
}

fn run_code(interp: &mut Interpreter, code: &Code, out: &mut Vec<String>) -> Result<(), String> {
    let mut i = 0usize;
    let mut budget = 100_000usize;
    loop {
        assert!(budget > 0, "the program does not end");
        budget -= 1;
        let mut step = interp.execute(code, i);
        loop {
            match step {
                Step::Goto(n) => {
                    i = n;
                    break;
                }
                Step::Done => return Ok(()),
                Step::Call(body, n) => {
                    run_code(interp, &body, out)?;
                    i = n;
                    break;
                }
                Step::Print(line, n) => {
                    out.push(line);
                    i = n;
                    break;
                }
                Step::Float(work) => {
                    let value = answer(&code.tokens[i].type_, &work);
                    step = interp.resume(code, i, work, value);
                }
                Step::Fail(d) => return Err(d.message),
                Step::Rejected(errors) => return Err(errors[0].message.clone()),
            }
        }
    }
}

fn run(text: &str) -> (Interpreter, Vec<String>, Result<(), String>) {
    let code = scan(text);
    let mut interp = Interpreter::new();
    let mut out = Vec::new();
    let result = run_code(&mut interp, &code, &mut out);
    (interp, out, result)
}

fn top_int(interp: &Interpreter) -> i64 {
    match interp.st_stack.last() {
        Some(Object::Int(x)) => *x,
        other => panic!("expected an Int on top, found {:?}", other),
    }
}

#[test]
fn one_plus_two_is_three() {
    let (interp, out, result) = run("1 2 +");
    assert_eq!(result, Ok(()));
    assert_eq!(interp.st_stack.len(), 1);
    assert_eq!(top_int(&interp), 3);
    assert!(out.is_empty());
    let (interp, out, result) = run("1 2 + $");
    assert_eq!(result, Ok(()));
    assert_eq!(out, vec!["3".to_string()]);
    assert!(interp.st_stack.is_empty());
}

#[test]
fn text_turned_into_code_runs() {
    let (_, out, result) = run("\"5 3 +$\" ~ ^");
    assert_eq!(result, Ok(()));
    assert_eq!(out, vec!["8".to_string()]);
}

#[test]
fn text_with_lexical_error_is_rejected() {
    let (_, out, result) = run("1 $ \"5 ` 3\" ~ 2 $");
    assert_eq!(result, Err("Unexpected character".to_string()));
    assert_eq!(out, vec!["1".to_string()]);
}

#[test]
fn remainder_rounds_toward_zero() {
    assert_eq!(top_int(&run("7 3 %").0), 1);
    assert_eq!(top_int(&run("0 7 - 3 %").0), -1);
    assert_eq!(top_int(&run("7 0 3 - %").0), 1);
    assert_eq!(top_int(&run("0 7 - 0 3 - %").0), -1);
    assert_eq!(int_binary(&TokenType::Mod, i64::MIN, -1), Some(0));
    assert_eq!(int_binary(&TokenType::Mod, -7, 3), Some(-7i64 % 3));
    assert_eq!(int_binary(&TokenType::Mod, 7, 0), None);
}

#[test]
fn arithmetic_wraps() {
    assert_eq!(top_int(&run("9223372036854775807 1 +").0), i64::MIN);
    assert_eq!(top_int(&run("0 9223372036854775807 - 2 -").0), i64::MAX);
    assert_eq!(top_int(&run("9223372036854775807 2 *").0), -2);
    assert_eq!(int_binary(&TokenType::Slash, i64::MIN, -1), Some(i64::MIN));
    assert_eq!(int_binary(&TokenType::Slash, -7, 2), Some(-3));
    assert_eq!(int_binary(&TokenType::Slash, 7, -2), Some(-3));
    assert_eq!(int_binary(&TokenType::Slash, -7, -2), Some(3));
    assert_eq!(int_binary(&TokenType::And, 12, 10), Some(8));
    assert_eq!(int_binary(&TokenType::Or, 12, 10), Some(14));
    assert_eq!(int_binary(&TokenType::Equal, 2, 2), Some(1));
    assert_eq!(int_binary(&TokenType::Greater, 2, 3), Some(0));
    assert_eq!(int_binary(&TokenType::Less, 2, 3), Some(1));
    assert_eq!(int_binary(&TokenType::Dot, 2, 3), None);
}

#[test]
fn division_by_zero_fails() {
    let (_, _, result) = run("1 0 /");
    assert_eq!(result, Err("Division by zero".to_string()));
    let (_, _, result) = run("1 0 %");
    assert_eq!(result, Err("Division by zero".to_string()));
}

#[test]
fn joined_code_keeps_labels() {
    let (interp, _, result) = run("{1 [a] 2} {3 [b] 4 5} +");
    assert_eq!(result, Ok(()));
    match interp.st_stack.last() {
        Some(Object::Code(c)) => {
            assert_eq!(c.tokens.len(), 6);
            assert!(matches!(c.tokens[1].type_, TokenType::Int(2)));
            assert!(matches!(c.tokens[2].type_, TokenType::Int(3)));
            assert!(matches!(c.tokens[5].type_, TokenType::EOF));
            assert_eq!(c.lookup(&"a".to_string()), Some(0));
            assert_eq!(c.lookup(&"b".to_string()), Some(2));
            assert_eq!(c.lookup(&"c".to_string()), None);
        }
        other => panic!("expected code, found {:?}", other),
    }
}

#[test]
fn joined_code_runs_both_parts() {
    let (_, out, result) = run("{1 $} {2 $} + ^");
    assert_eq!(result, Ok(()));
    assert_eq!(out, vec!["1".to_string(), "2".to_string()]);
}

#[test]
fn shared_label_cannot_be_joined() {
    let (_, _, result) = run("{1 [a]} {2 [a]} +");
    assert_eq!(result, Err("Label \"a\" conflicts between concatenated code objects".to_string()));
    let left = scan("1 [a]");
    let right = scan("2 [a]");
    assert!(matches!(left.concat(&right), Err(JoinError::Conflict(0))));
}

#[test]
fn label_beyond_range_cannot_be_joined() {
    let left = scan("1 2");
    let mut right = scan("3");
    right.labels.push(Label { name: "far".to_string(), index: usize::MAX });
    assert!(matches!(left.concat(&right), Err(JoinError::Range)));
    let mut interp = Interpreter::new();
    interp.push(Object::Code(Rc::new(left)));
    interp.push(Object::Code(Rc::new(right)));
    let plus = scan("+");
    match interp.execute(&plus, 0) {
        Step::Fail(d) => assert_eq!(d.message, Fault::LabelRange.text()),
        other => panic!("expected a failure, found {:?}", other),
    }
}

#[test]
fn jump_by_length_returns_to_start() {
    let code = scan("^");
    assert_eq!(code.tokens.len(), 2);
    let mut interp = Interpreter::new();
    interp.push(Object::Int(2));
    assert!(matches!(interp.execute(&code, 0), Step::Goto(0)));
    assert!(interp.st_stack.is_empty());
    assert_eq!(jump_target(0, 5, 5), 0);
    assert_eq!(jump_target(3, 5, 5), 3);
    assert_eq!(jump_target(3, 4, 5), 2);
    assert_eq!(jump_target(1, -2, 5), 4);
    assert_eq!(jump_target(1, -11, 5), 0);
    assert_eq!(jump_target(0, i64::MIN, 3), 1);
    assert_eq!(jump_target(2, i64::MAX, 3), 0);
}

#[test]
fn conditional_jump_skips_or_jumps() {
    let code = scan("0 3 ?");
    let mut interp = Interpreter::new();
    assert!(matches!(interp.execute(&code, 0), Step::Goto(1)));
    assert!(matches!(interp.execute(&code, 1), Step::Goto(2)));
    assert!(matches!(interp.execute(&code, 2), Step::Goto(3)));
    assert!(interp.st_stack.is_empty());
    let code = scan("1 3 ?");
    let mut interp = Interpreter::new();
    interp.execute(&code, 0);
    interp.execute(&code, 1);
    assert!(matches!(interp.execute(&code, 2), Step::Goto(1)));
    assert!(interp.st_stack.is_empty());
}

#[test]
fn false_condition_does_not_look_at_target() {
    let (_, out, result) = run("0 \"nowhere\" ? 1 $ 0 {2 $} ? 3 $");
    assert_eq!(result, Ok(()));
    assert_eq!(out, vec!["1".to_string(), "3".to_string()]);
}

#[test]
fn jump_to_label() {
    let (_, out, result) = run("1 \"end\" ^ 2 $ 3 $ [end] 4 $");
    assert_eq!(result, Ok(()));
    assert_eq!(out, vec!["1".to_string(), "4".to_string()]);
}

#[test]
fn countdown_loop() {
    let (_, out, result) = run("3 . [top] $ 1 - . . \"top\" ?");
    assert_eq!(result, Ok(()));
    assert_eq!(out, vec!["3".to_string(), "2".to_string(), "1".to_string()]);
}

#[test]
fn defined_function_is_called() {
    let (_, out, result) = run("{5 $} \"f\" : f 6 $ f");
    assert_eq!(result, Ok(()));
    assert_eq!(out, vec!["5".to_string(), "6".to_string(), "5".to_string()]);
}

#[test]
fn later_definition_replaces_earlier() {
    let (interp, out, result) = run("{1 $} \"f\" : {2 $} \"f\" : {3 $} \"g\" : f g");
    assert_eq!(result, Ok(()));
    assert_eq!(out, vec!["2".to_string(), "3".to_string()]);
    assert_eq!(interp.functions.len(), 2);
}

#[test]
fn deep_recursion_through_calls() {
    let (_, out, result) = run("{. $ 1 - . \"down\" ~ ?} \"down\" : 3 down");
    assert_eq!(result, Ok(()));
    assert_eq!(out, vec!["3".to_string(), "2".to_string(), "1".to_string()]);
}

#[test]
fn failures_halt_and_keep_output() {
    let (_, out, result) = run("1 $ \"x\" ^ 2 $");
    assert_eq!(result, Err("Unknown label \"x\"".to_string()));
    assert_eq!(out, vec!["1".to_string()]);
    let (_, out, result) = run("1 $ g 2 $");
    assert_eq!(result, Err("Undefined function".to_string()));
    assert_eq!(out, vec!["1".to_string()]);
    let (_, out, result) = run("1 $ $ 2 $");
    assert_eq!(result, Err("Popped empty primary stack".to_string()));
    assert_eq!(out, vec!["1".to_string()]);
    let (_, _, result) = run("1 +");
    assert_eq!(result, Err("Popped empty primary stack".to_string()));
    let (_, _, result) = run(";");
    assert_eq!(result, Err("Popped empty secondary stack".to_string()));
    let (_, _, result) = run("@");
    assert_eq!(result, Err("Popped empty secondary stack".to_string()));
    let (_, _, result) = run(".");
    assert_eq!(result, Err("Peeked empty primary stack".to_string()));
    let (_, _, result) = run("{g} \"f\" : 1 f");
    assert_eq!(result, Err("Undefined function".to_string()));
}

#[test]
fn failure_report_points_at_token() {
    let code = scan("1\n  +");
    let mut interp = Interpreter::new();
    interp.execute(&code, 0);
    match interp.execute(&code, 1) {
        Step::Fail(d) => {
            assert_eq!(d.severity, Severity::RuntimeError);
            assert_eq!(d.label(), "runtime error");
            assert_eq!(d.message, "Popped empty primary stack");
            assert_eq!((d.pos, d.len, d.line), (2, 1, 1));
            assert_eq!(*d.source, "1\n  +");
        }
        other => panic!("expected a failure, found {:?}", other),
    }
}

#[test]
fn wrong_operands_fail() {
    for text in ["1 {} +", "{} 1 +", "\"a\" {} +", "\"a\" 1 -", "1 \"a\" *", "{} {} -", "{} ~", "1 \"a\" <", "{} {} =", "\"a\" 1 &", "1.5 2 |"] {
        let (_, _, result) = run(text);
        assert_eq!(result, Err("Cannot perform this operation on these types".to_string()), "{}", text);
    }
    let (_, _, result) = run("{1} 2 :");
    assert_eq!(result, Err("Expecting string as function name".to_string()));
    let (_, _, result) = run("1 \"f\" :");
    assert_eq!(result, Err("Expecting code object as function body".to_string()));
}

#[test]
fn stack_instructions() {
    let (interp, _, result) = run("1 2 , 3");
    assert_eq!(result, Ok(()));
    assert_eq!(interp.st_stack.len(), 2);
    assert_eq!(interp.nd_stack.len(), 1);
    assert_eq!(top_int(&interp), 3);
    assert!(matches!(interp.nd_stack[0], Object::Int(2)));
    let (interp, _, _) = run("1 2 , 3 ;");
    assert_eq!(top_int(&interp), 2);
    assert!(interp.nd_stack.is_empty());
    let (interp, _, _) = run("1 2 , 3 , @ ;");
    assert_eq!(top_int(&interp), 2);
    assert_eq!(interp.st_stack.len(), 2);
    let (interp, _, _) = run("1 2 , #");
    assert_eq!(top_int(&interp), 2);
    assert!(matches!(interp.nd_stack[0], Object::Int(1)));
    let (interp, _, _) = run("7 .");
    assert_eq!(interp.st_stack.len(), 2);
    assert!(matches!(interp.st_stack[0], Object::Int(7)));
    assert_eq!(top_int(&interp), 7);
}

#[test]
fn duplicated_code_is_the_same_code() {
    let (_, out, result) = run("{4 $} . ^ ^");
    assert_eq!(result, Ok(()));
    assert_eq!(out, vec!["4".to_string(), "4".to_string()]);
}

#[test]
fn truthiness() {
    assert_eq!(top_int(&run("0 !").0), 0);
    assert_eq!(top_int(&run("5 !").0), 1);
    assert_eq!(top_int(&run("\"\" !").0), 1);
    assert_eq!(top_int(&run("{} !").0), 1);
    assert_eq!(top_int(&run("0.0 !").0), 0);
    assert_eq!(top_int(&run("0.5 !").0), 1);
    assert!(!Object::Float((-0.0f64).to_bits()).is_truthy());
    assert!(Object::Float(f64::NAN.to_bits()).is_truthy());
    assert!(!Object::Int(0).is_truthy());
}

#[test]
fn complement_and_truncation() {
    assert_eq!(top_int(&run("5 ~").0), -6);
    assert_eq!(top_int(&run("2.9 ~").0), 2);
    assert_eq!(top_int(&run("0 2.9 - ~").0), -2);
}

#[test]
fn text_is_joined_with_plus() {
    let (_, out, _) = run("\"ab\" \"cd\" + $ 12 \"x\" + $ \"x\" 0 12 - + $ 1.5 \"x\" + $ \"x\" 2.25 + $");
    assert_eq!(out, vec!["abcd", "12x", "x-12", "1.5x", "x2.25"]);
}

#[test]
fn printing() {
    let (_, out, _) = run("0 $ 0 120 - $ 9223372036854775807 $ \"hi\" $ {1} $ 2.5 $");
    assert_eq!(out, vec!["0", "-120", "9223372036854775807", "hi", "<Code object>", "2.5"]);
    assert_eq!(Object::Int(i64::MIN).print(), Some("-9223372036854775808".to_string()));
    assert_eq!(Object::Float(0).print(), None);
    assert_eq!(Object::String(Rc::new("a b".to_string())).print(), Some("a b".to_string()));
}

#[test]
fn texts_compare_by_content() {
    assert_eq!(top_int(&run("\"a\" \"b\" <").0), 1);
    assert_eq!(top_int(&run("\"b\" \"a\" <").0), 0);
    assert_eq!(top_int(&run("\"b\" \"a\" >").0), 1);
    assert_eq!(top_int(&run("\"a\" \"a\" =").0), 1);
    assert_eq!(top_int(&run("\"a\" \"ab\" <").0), 1);
    assert_eq!(top_int(&run("\"a\" \"a\" <").0), 0);
    let (a, b) = ("abc".to_string(), "abd".to_string());
    assert_eq!(text_binary(&TokenType::Less, &a, &b), Some(1));
    assert_eq!(text_binary(&TokenType::Greater, &a, &b), Some(0));
    assert_eq!(text_binary(&TokenType::Equal, &a, &b), Some(0));
    assert_eq!(text_binary(&TokenType::Plus, &a, &b), None);
}

#[test]
fn floats_go_through_the_host() {
    let (_, out, result) = run("1.5 2 + $ 3 0.5 * $ 1.5 1.5 = $ 1 2.5 < $ 2.5 1 < $ 7.5 2 % $");
    assert_eq!(result, Ok(()));
    assert_eq!(out, vec!["3.5", "1.5", "1", "1", "0", "1.5"]);
}

#[test]
fn float_offset_jumps() {
    let (_, out, result) = run("3.9 ^ 1 $ 2 $");
    assert_eq!(result, Ok(()));
    assert_eq!(out, vec!["2"]);
}

#[test]
fn unexpected_answer_fails() {
    let code = scan("1.5");
    let mut interp = Interpreter::new();
    let work = match interp.execute(&code, 0) {
        Step::Float(work) => work,
        other => panic!("expected work, found {:?}", other),
    };
    assert!(matches!(&work, FloatWork::Literal(t) if t == "1.5"));
    match interp.resume(&code, 0, work, Object::Int(1)) {
        Step::Fail(d) => assert_eq!(d.message, Fault::Answer.text()),
        other => panic!("expected a failure, found {:?}", other),
    }
    assert!(interp.st_stack.is_empty());
}

#[test]
fn end_of_code_ends_the_run() {
    let code = scan("1");
    let mut interp = Interpreter::new();
    assert!(matches!(interp.execute(&code, 1), Step::Done));
    assert!(matches!(interp.execute(&code, 9), Step::Done));
    let empty = Code::new(Vec::new(), Vec::new());
    assert!(matches!(interp.execute(&empty, 0), Step::Done));
    let t = Token::new(Rc::new(String::new()), TokenType::EOF, String::new(), 0, 1, 0);
    let only = Code::new(vec![t], Vec::new());
    assert!(matches!(interp.execute(&only, 0), Step::Done));
}

#[test]
fn checked_pops() {
    let code = scan("+");
    let tok = &code.tokens[0];
    let mut interp = Interpreter::new();
    let d = interp.checked_pop(tok).unwrap_err();
    assert_eq!(d.message, "Popped empty primary stack");
    let d = interp.checked_pop_nd(tok).unwrap_err();
    assert_eq!(d.message, "Popped empty secondary stack");
    interp.push(Object::Int(4));
    interp.push_nd(Object::Int(5));
    assert!(matches!(interp.checked_pop(tok), Ok(Object::Int(4))));
    assert!(matches!(interp.checked_pop_nd(tok), Ok(Object::Int(5))));
    assert!(interp.st_stack.is_empty() && interp.nd_stack.is_empty());
}

#[test]
fn conflict_names_first_shared_label() {
    let left = scan("1 [a] [b]");
    let right = scan("2 [c] 3 [b] [a]");
    assert!(matches!(left.concat(&right), Err(JoinError::Conflict(1))));
    let (_, _, result) = run("{1 [a] [b]} {2 [c] 3 [b] [a]} +");
    assert_eq!(result, Err("Label \"b\" conflicts between concatenated code objects".to_string()));
    assert_eq!(Fault::UnknownLabel.text(), "Unknown label");
}

#[test]
fn joined_code_is_well_formed() {
    let left = scan("1 [a] 2 [b]");
    let right = scan("3 [c] 4 5 [d]");
    let whole = left.concat(&right).unwrap();
    assert_eq!(whole.tokens.len(), 6);
    for (k, t) in whole.tokens.iter().enumerate() {
        assert_eq!(matches!(t.type_, TokenType::EOF), k == 5);
    }
    assert_eq!(whole.labels.len(), 4);
    for l in &whole.labels {
        assert!(l.index < whole.tokens.len());
    }
    assert_eq!(whole.lookup(&"d".to_string()), Some(4));
    assert_eq!(*whole.tokens[0].source, "1 [a] 2 [b]");
    assert_eq!(*whole.tokens[2].source, "3 [c] 4 5 [d]");
}

#[test]
fn code_from_text_refers_to_that_text() {
    let (interp, _, result) = run("\"1 g\" ~");
    assert_eq!(result, Ok(()));
    match interp.st_stack.last() {
        Some(Object::Code(c)) => {
            assert_eq!(c.tokens.len(), 3);
            for t in &c.tokens {
                assert_eq!(*t.source, "1 g");
            }
        }
        other => panic!("expected code, found {:?}", other),
    }
    let (_, _, result) = run("\"1 g\" ~ ^");
    assert_eq!(result, Err("Undefined function".to_string()));
}

#[test]
fn texts_are_shared() {
    let code = scan("\"ab\" .");
    let mut interp = Interpreter::new();
    interp.execute(&code, 0);
    interp.execute(&code, 1);
    assert_eq!(interp.st_stack.len(), 2);
    match (&code.tokens[0].type_, &interp.st_stack[0], &interp.st_stack[1]) {
        (TokenType::String(t), Object::String(a), Object::String(b)) => {
            assert_eq!(a.as_str(), "ab");
            assert!(Rc::ptr_eq(t, a));
            assert!(Rc::ptr_eq(a, b));
        }
        other => panic!("expected texts, found {:?}", other),
    }
}
