use interp::error::{Diagnostic, ErrorKind};
use interp::interpreter::Interpreter;
use interp::lexer::Lexer;
use interp::number::{Number, Numerics};
use interp::grammar::{FnDecl, Statement};
use interp::parser::Parser;
use interp::runtime::{Function, Object, Println};
use interp::token::{Token, TokenType};

struct Doubles;

fn double(n: Number) -> f64 {
    f64::from_bits(n.bits)
}

fn number(x: f64) -> Number {
    Number::from_bits(x.to_bits())
}

impl Numerics for Doubles {
    fn number(&self, text: &str) -> Number {
        number(text.parse::<f64>().expect("a number literal"))
    }

    fn add(&self, a: Number, b: Number) -> Number {
        number(double(a) + double(b))
    }

    fn subtract(&self, a: Number, b: Number) -> Number {
        number(double(a) - double(b))
    }

    fn multiply(&self, a: Number, b: Number) -> Number {
        number(double(a) * double(b))
    }

    fn divide(&self, a: Number, b: Number) -> Number {
        number(double(a) / double(b))
    }

    fn show(&self, a: Number) -> String {
        double(a).to_string()
    }
}

fn run_with(interp: &mut Interpreter, source: &str) -> Result<(), Diagnostic> {
    let tokens = Lexer::new(source.to_string()).tokenize().expect("the source scans");
    let ast = Parser::new(tokens).parse().expect("the source parses");
    interp.interpret(ast, &Doubles)
}

fn run(source: &str) -> (String, Result<(), Diagnostic>) {
    let mut interp = Interpreter::new();
    let result = run_with(&mut interp, source);
    (interp.output().concat(), result)
}

fn prints(source: &str) -> String {
    let (out, result) = run(source);
    result.expect("the program runs");
    out
}

fn fails(source: &str) -> (String, usize, String) {
    let (out, result) = run(source);
    let d = result.unwrap_err();
    assert_eq!(d.kind, ErrorKind::Runtime);
    (out, d.line, d.message)
}

#[test]
fn arithmetic_with_precedence() {
    assert_eq!(prints("println(1 + 2 * 3);"), "7\n");
}

#[test]
fn string_concatenation() {
    assert_eq!(prints("let a = \"hi\"; let b = \" there\"; println(a + b);"), "hi there\n");
}

#[test]
fn closure_capture() {
    assert_eq!(
        prints("fn mk(x) { fn inner() { return x; } return inner; } let f = mk(42); println(f());"),
        "42\n"
    );
}

#[test]
fn while_loop_counts() {
    assert_eq!(prints("let i = 0; while i < 3 { println(i); i = i + 1; }"), "0\n1\n2\n");
}

#[test]
fn division_by_zero() {
    let (out, line, message) = fails("println(1 / 0);");
    assert_eq!(out, "");
    assert_eq!(line, 1);
    assert_eq!(message, "Division by zero is not allowed");
    let (_, result) = run("println(1 / 0);");
    let shown = result.unwrap_err().to_string();
    assert!(
        shown == "\nRuntimeError [line 1]: Division by zero is not allowed."
            || shown == "\n\u{1b}[1;31mRuntimeError\u{1b}[0m [line 1]: Division by zero is not allowed."
    );
}

#[test]
fn for_loop_runs_over_a_range() {
    assert_eq!(prints("for i in 0..3 { println(i); }"), "0\n1\n2\n");
}

#[test]
fn truthiness_and_not() {
    assert_eq!(
        prints("println(!null); println(!false); println(!0); println(!\"\"); println(!(!1)); println(!(!null));"),
        "true\ntrue\nfalse\nfalse\ntrue\nfalse\n"
    );
    assert_eq!(prints("println(!println);"), "false\n");
}

#[test]
fn equality() {
    assert_eq!(
        prints(
            "println(1 == 1); println(\"a\" == \"a\"); println(null == null); println(true == true); \
             println(1 == \"1\"); println(null == false); println(1 != 2);"
        ),
        "true\ntrue\ntrue\ntrue\nfalse\nfalse\ntrue\n"
    );
    assert_eq!(prints("println(println == println);"), "false\n");
    assert_eq!(prints("fn f() { } println(f == f); println(f != f);"), "false\ntrue\n");
}

#[test]
fn ordering() {
    assert_eq!(
        prints(
            "println(1 < 2); println(2 <= 2); println(3 > 4); println(4 >= 5); \
             println(\"abc\" < \"abd\"); println(\"b\" > \"abc\"); println(\"a\" <= \"a\");"
        ),
        "true\ntrue\nfalse\nfalse\ntrue\ntrue\ntrue\n"
    );
    assert_eq!(
        fails("println(1 < \"2\");"),
        (
            String::new(),
            1,
            "Ordering operators can only be used when both operands are 'string' or 'number'"
                .to_string()
        )
    );
    assert_eq!(fails("\nprintln(null >= null);").1, 2);
}

#[test]
fn addition_errors() {
    assert_eq!(
        fails("println(\"a\" + 1);").2,
        "Expected both operands to be of the same type"
    );
    assert_eq!(
        fails("println(1 + \"a\");").2,
        "Expected both operands to be of the same type"
    );
    assert_eq!(fails("println(true + 1);").2, "Unsupported operand types for addition");
    assert_eq!(fails("println(null + null);").2, "Unsupported operand types for addition");
}

#[test]
fn arithmetic_needs_numbers() {
    assert_eq!(
        fails("1 - \"a\";").2,
        "Expected both operands to be numbers in subtraction operation"
    );
    assert_eq!(
        fails("\"a\" * 2;").2,
        "Expected both operands to be numbers in multiplication operation"
    );
    assert_eq!(
        fails("\"a\" / 2;").2,
        "Expected both operands to be numbers in division operation"
    );
    assert_eq!(fails("-\"a\";").2, "Expected number");
    assert_eq!(prints("println(-3); println(7 - 10); println(2.5 * 2); println(1 / 4);"), "-3\n-3\n5\n0.25\n");
}

#[test]
fn short_circuit() {
    assert_eq!(
        prints(
            "fn loud(v) { println(\"evaluated\"); return v; } \
             println(true or loud(1)); println(false and loud(1)); \
             println(false or loud(2)); println(true and loud(3));"
        ),
        "true\nfalse\nevaluated\n2\nevaluated\n3\n"
    );
    assert_eq!(prints("println(null or \"x\"); println(0 and \"y\"); println(1 or 2);"), "x\ny\n1\n");
}

#[test]
fn lexical_scope() {
    assert_eq!(
        prints(
            "let x = \"global\"; fn show() { println(x); } \
             fn caller() { let x = \"local\"; show(); } caller(); show();"
        ),
        "global\nglobal\n"
    );
    assert_eq!(
        prints(
            "fn counter() { let n = 0; fn next() { n = n + 1; return n; } return next; } \
             let c = counter(); println(c()); println(c()); let d = counter(); println(d());"
        ),
        "1\n2\n1\n"
    );
}

#[test]
fn assignment_does_not_create() {
    assert_eq!(
        fails("x = 1;"),
        (String::new(), 1, "Tried to assign to non-existent binding 'x'".to_string())
    );
    assert_eq!(prints("let x; println(x); x = 1; println(x); println(x = 2);"), "null\n1\n2\n");
}

#[test]
fn block_scoping() {
    assert_eq!(
        fails("{ let inner = 1; println(inner); } println(inner);"),
        ("1\n".to_string(), 1, "Undefined variable 'inner'".to_string())
    );
    assert_eq!(
        prints("let a = 1; { let a = 2; println(a); { a = 3; } println(a); } println(a);"),
        "2\n3\n1\n"
    );
    assert_eq!(prints("let a = 1; { a = 5; } println(a);"), "5\n");
}

#[test]
fn redeclaration_shadows() {
    assert_eq!(prints("let a = 1; let a = 2; println(a);"), "2\n");
}

#[test]
fn calls() {
    assert_eq!(fails("let a = 1; a();").2, "Expected callable object");
    assert_eq!(fails("fn f(a, b) { } \n f(1);"), (String::new(), 2, "Expected 2 argument(s), but 1 were found".to_string()));
    assert_eq!(fails("println();").2, "Expected 1 argument(s), but 0 were found");
    assert_eq!(prints("fn f() { } println(f()); println(f); println(println);"), "null\n<user fn f>\n<std fn println>\n");
    assert_eq!(prints("fn fib(n) { if n < 2 { return n; } return fib(n - 1) + fib(n - 2); } println(fib(15));"), "610\n");
    assert_eq!(prints("fn f(a) { return; } println(f(1));"), "null\n");
}

#[test]
fn arguments_are_evaluated_left_to_right() {
    assert_eq!(
        prints(
            "fn say(v) { println(v); return v; } fn three(a, b, c) { return a + b + c; } \
             println(three(say(1), say(2), say(3)));"
        ),
        "1\n2\n3\n6\n"
    );
}

#[test]
fn return_leaves_loops_and_blocks() {
    assert_eq!(
        prints("fn first() { let i = 0; while true { { if i == 3 { return i; } } i = i + 1; } } println(first()); println(\"after\");"),
        "3\nafter\n"
    );
}

#[test]
fn return_outside_function() {
    assert_eq!(fails("println(1);\nreturn 2;"), ("1\n".to_string(), 2, "return outside function".to_string()));
}

#[test]
fn if_and_else() {
    assert_eq!(
        prints("if 1 < 2 { println(\"yes\"); } else { println(\"no\"); } if null println(\"a\"); else println(\"b\"); if false { println(\"c\"); }"),
        "yes\nb\n"
    );
}

#[test]
fn undefined_variable() {
    assert_eq!(fails("\n\nprintln(nothing);"), (String::new(), 3, "Undefined variable 'nothing'".to_string()));
}

#[test]
fn current_is_restored_after_a_failure_in_a_block() {
    let mut interp = Interpreter::new();
    assert!(run_with(&mut interp, "let a = 1; { let b = 2; { b(); } }").is_err());
    assert_eq!(interp.current, interp.global);
    run_with(&mut interp, "println(a);").unwrap();
    assert_eq!(interp.output().concat(), "1\n");
    assert!(run_with(&mut interp, "println(b);").is_err());
}

#[test]
fn the_limit_is_reached() {
    let mut interp = Interpreter::limited(1000);
    let d = run_with(&mut interp, "while true { }").unwrap_err();
    assert_eq!(d.message, "Evaluation limit reached");
    let mut interp = Interpreter::limited(1000);
    assert!(run_with(&mut interp, "fn f() { return f(); } f();").is_err());
    let mut interp = Interpreter::limited(1000);
    run_with(&mut interp, "let i = 0; while i < 3 { i = i + 1; } println(i);").unwrap();
    assert_eq!(interp.output().concat(), "3\n");
}

#[test]
fn numbers_are_doubles() {
    assert_eq!(prints("println(0.1 + 0.2); println(1 / 3); println(100000000000000000000 * 10);"), "0.30000000000000004\n0.3333333333333333\n1000000000000000000000\n");
    assert_eq!(prints("println(0 == -0); println(1 / 3 == 1 / 3);"), "true\ntrue\n");
}

#[test]
fn a_range_is_no_value() {
    assert_eq!(fails("let r = 1..3;"), (String::new(), 0, "A range can only be used in a for loop".to_string()));
}

#[test]
fn a_function_without_its_environment() {
    let f = Function {
        declaration: FnDecl {
            ident: Token::new("f".to_string(), TokenType::Identifier, 4),
            params: Vec::new(),
            body: Statement::BlockStmt(Vec::new()),
        },
        closure: 99,
    };
    let mut interp = Interpreter::new();
    let d = f.call(&mut interp, Vec::new(), &Doubles).unwrap_err();
    assert_eq!((d.line, d.message.as_str()), (4, "The environment of the function is gone"));
    let g = Function { closure: 0, ..f };
    assert!(matches!(g.call(&mut interp, Vec::new(), &Doubles), Ok(Object::Null)));
}

#[test]
fn println_by_hand() {
    let mut interp = Interpreter::new();
    let p = Println {};
    let r = p.call(&mut interp, vec![Object::Str("direct".to_string())], &Doubles);
    assert!(matches!(r, Ok(Object::Null)));
    let r = p.call(&mut interp, vec![Object::Number(number(1.5))], &Doubles);
    assert!(matches!(r, Ok(Object::Null)));
    assert_eq!(interp.output().concat(), "direct\n1.5\n");
}

#[test]
fn a_block_by_hand() {
    let mut interp = Interpreter::new();
    run_with(&mut interp, "let a = 1;").unwrap();
    let tokens = Lexer::new("let b = a + 1; println(b);".to_string()).tokenize().unwrap();
    let block = Parser::new(tokens).parse().unwrap();
    interp.exec_block_statement(&block, 0, &Doubles).unwrap();
    assert_eq!(interp.output().concat(), "2\n");
    assert_eq!(interp.current, 0);
    run_with(&mut interp, "println(b);").unwrap();
}

#[test]
fn deep_nesting_within_the_limit() {
    let mut interp = Interpreter::limited(4);
    run_with(&mut interp, "println(1);").unwrap();
    let mut interp = Interpreter::limited(3);
    assert_eq!(run_with(&mut interp, "println(1);").unwrap_err().message, "Evaluation limit reached");
}

struct Recording {
    asked: std::cell::RefCell<Vec<String>>,
}

impl Recording {
    fn note(&self, question: String) {
        self.asked.borrow_mut().push(question);
    }
}

impl Numerics for Recording {
    fn number(&self, text: &str) -> Number {
        self.note(format!("number {text}"));
        Doubles.number(text)
    }

    fn add(&self, a: Number, b: Number) -> Number {
        self.note(format!("{} + {}", double(a), double(b)));
        Doubles.add(a, b)
    }

    fn subtract(&self, a: Number, b: Number) -> Number {
        self.note(format!("{} - {}", double(a), double(b)));
        Doubles.subtract(a, b)
    }

    fn multiply(&self, a: Number, b: Number) -> Number {
        self.note(format!("{} * {}", double(a), double(b)));
        Doubles.multiply(a, b)
    }

    fn divide(&self, a: Number, b: Number) -> Number {
        self.note(format!("{} / {}", double(a), double(b)));
        Doubles.divide(a, b)
    }

    fn show(&self, a: Number) -> String {
        self.note(format!("show {}", double(a)));
        Doubles.show(a)
    }
}

fn asked(source: &str) -> Vec<String> {
    let host = Recording { asked: std::cell::RefCell::new(Vec::new()) };
    let tokens = Lexer::new(source.to_string()).tokenize().unwrap();
    let ast = Parser::new(tokens).parse().unwrap();
    let _ = Interpreter::new().interpret(ast, &host);
    host.asked.into_inner()
}

#[test]
fn the_host_is_asked_what_the_program_needs_and_no_more() {
    assert_eq!(
        asked("println(1 + 2 * 3);"),
        vec!["number 1", "number 2", "number 3", "2 * 3", "1 + 6", "show 7"]
    );
    assert_eq!(asked("println(8 - 2 / 4);"), vec![
        "number 8", "number 2", "number 4", "2 / 4", "8 - 0.5", "show 7.5"
    ]);
    assert_eq!(asked("1 / 0;"), vec!["number 1", "number 0"]);
    assert_eq!(asked("println(\"a\" + \"b\"); println(1 < 2); println(-3 == 3);"), vec![
        "number 1", "number 2", "number 3", "number 3"
    ]);
    assert_eq!(asked("true or 1 + 1;"), Vec::<String>::new());
}
