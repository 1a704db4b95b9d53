use interp::error::{Diagnostic, ErrorKind};
use interp::grammar::{Declaration, Expression, Literal, Statement};
use interp::lexer::Lexer;
use interp::parser::Parser;
use interp::token::{Token, TokenType};

fn parse(source: &str) -> Result<Vec<Declaration>, Vec<Diagnostic>> {
    let tokens = Lexer::new(source.to_string()).tokenize().expect("the source scans");
    Parser::new(tokens).parse()
}

fn tree(source: &str) -> String {
    format!("{:?}", parse(source).expect("the source parses"))
}

fn expr(source: &str) -> Expression {
    let mut decls = parse(source).expect("the source parses");
    assert_eq!(decls.len(), 1);
    match decls.remove(0) {
        Declaration::StmtDecl(Statement::ExprStmt(e)) => e,
        other => panic!("not an expression statement: {:?}", other),
    }
}

fn shape(e: &Expression) -> String {
    match e {
        Expression::Literal(Literal::Number(n)) => n.clone(),
        Expression::Literal(Literal::Str(s)) => format!("{:?}", s),
        Expression::Literal(Literal::Boolean(b)) => b.to_string(),
        Expression::Literal(Literal::Null) => "null".to_string(),
        Expression::Var(t) => t.lexeme.clone(),
        Expression::Assignment { ident, expr } => format!("(= {} {})", ident.lexeme, shape(expr)),
        Expression::Unary { operator, expr } => format!("({} {})", operator.lexeme, shape(expr)),
        Expression::Binary { left, operator, right } => {
            format!("({} {} {})", operator.lexeme, shape(left), shape(right))
        }
        Expression::Logical { left, operator, right } => {
            format!("[{} {} {}]", operator.lexeme, shape(left), shape(right))
        }
        Expression::Range { left, right } => format!("(.. {} {})", shape(left), shape(right)),
        Expression::Grouping(inner) => format!("(group {})", shape(inner)),
        Expression::Call { callee, args, .. } => {
            let mut out = format!("(call {}", shape(callee));
            for a in args {
                out.push(' ');
                out.push_str(&shape(a));
            }
            out.push(')');
            out
        }
    }
}

fn errors(source: &str) -> Vec<(usize, String)> {
    parse(source).unwrap_err().into_iter().map(|d| (d.line, d.message)).collect()
}

#[test]
fn precedence_climbs() {
    assert_eq!(shape(&expr("1 + 2 * 3;")), "(+ 1 (* 2 3))");
    assert_eq!(shape(&expr("1 * 2 + 3;")), "(+ (* 1 2) 3)");
    assert_eq!(shape(&expr("1 < 2 == 3 > 4;")), "(== (< 1 2) (> 3 4))");
    assert_eq!(shape(&expr("a or b and c == d;")), "[or a [and b (== c d)]]");
}

#[test]
fn binary_operators_group_left() {
    assert_eq!(shape(&expr("1 - 2 - 3;")), "(- (- 1 2) 3)");
    assert_eq!(shape(&expr("8 / 4 / 2;")), "(/ (/ 8 4) 2)");
    assert_eq!(shape(&expr("a or b or c;")), "[or [or a b] c]");
    assert_eq!(shape(&expr("a and b and c;")), "[and [and a b] c]");
}

#[test]
fn assignment_groups_right() {
    assert_eq!(shape(&expr("a = b = 3;")), "(= a (= b 3))");
}

#[test]
fn unary_takes_a_primary() {
    assert_eq!(shape(&expr("-x + 1;")), "(+ (- x) 1)");
    assert_eq!(shape(&expr("!(a == b);")), "(! (group (== a b)))");
}

#[test]
fn calls_chain() {
    assert_eq!(shape(&expr("f(1)(2, 3)();")), "(call (call (call f 1) 2 3))");
    assert_eq!(shape(&expr("f(a, b,);")), "(call f a b)");
}

#[test]
fn range_is_not_associative() {
    assert_eq!(shape(&expr("1..5;")), "(.. 1 5)");
    assert_eq!(errors("1..5..9;"), vec![(1, "Expected ';' after expression".to_string())]);
}

#[test]
fn invalid_assignment_target() {
    assert_eq!(errors("1 = 2;"), vec![(1, "Invalid assignment target".to_string())]);
    assert_eq!(errors("(a) = 2;"), vec![(1, "Invalid assignment target".to_string())]);
}

#[test]
fn let_and_fn_declarations() {
    let decls = parse("let a; let b = 1; fn f(x, y) { return x; }").unwrap();
    assert_eq!(decls.len(), 3);
    assert!(matches!(&decls[0], Declaration::LetDecl { ident, init: None } if ident.lexeme == "a"));
    assert!(matches!(&decls[1], Declaration::LetDecl { ident, init: Some(_) } if ident.lexeme == "b"));
    match &decls[2] {
        Declaration::FnDecl(f) => {
            assert_eq!(f.ident.lexeme, "f");
            let names: Vec<&str> = f.params.iter().map(|p| p.lexeme.as_str()).collect();
            assert_eq!(names, vec!["x", "y"]);
            assert!(matches!(&f.body, Statement::BlockStmt(items) if items.len() == 1));
        }
        other => panic!("not a function: {:?}", other),
    }
}

#[test]
fn statements() {
    let decls = parse("if a { b; } else c; while x < 3 { x = x + 1; } { } return;").unwrap();
    assert_eq!(decls.len(), 4);
    assert!(matches!(
        &decls[0],
        Declaration::StmtDecl(Statement::IfStmt { else_branch: Some(_), .. })
    ));
    assert!(matches!(&decls[1], Declaration::StmtDecl(Statement::WhileStmt { .. })));
    assert!(matches!(&decls[2], Declaration::StmtDecl(Statement::BlockStmt(items)) if items.is_empty()));
    assert!(matches!(
        &decls[3],
        Declaration::StmtDecl(Statement::ReturnStmt { expr: None, .. })
    ));
}

#[test]
fn for_is_rewritten_to_while() {
    let with_for = tree("for i in 0..3 { println(i); }");
    let tokens = Lexer::new("{ let i = 0; while i < 3 { println(i); i = i + 1; } }".to_string())
        .tokenize()
        .unwrap();
    let by_hand = Parser::new(tokens).parse().unwrap();
    match &by_hand[0] {
        Declaration::StmtDecl(Statement::BlockStmt(items)) => {
            assert_eq!(items.len(), 2);
            assert!(matches!(&items[0], Declaration::LetDecl { .. }));
            assert!(matches!(&items[1], Declaration::StmtDecl(Statement::WhileStmt { .. })));
        }
        other => panic!("not a block: {:?}", other),
    }
    assert!(with_for.contains("WhileStmt"));
    assert!(with_for.contains("LetDecl"));
    assert_eq!(
        errors("for i in a..3 { }"),
        vec![(1, "Expected range operands to evaluate to a number".to_string())]
    );
    assert_eq!(
        errors("for i in 3 { }"),
        vec![(1, "Expected range expression (a..b) in for loop declaration".to_string())]
    );
}

#[test]
fn missing_semicolon_after_let() {
    let found = parse("let x = 1 let y = 2;").unwrap_err();
    assert_eq!(found.len(), 1);
    assert_eq!(found[0].kind, ErrorKind::Syntax);
    assert_eq!(found[0].line, 1);
    assert_eq!(found[0].message, "Expected ';' after let declaration");
    let shown = found[0].to_string();
    assert!(
        shown == "\nSyntaxError [line 1]: Expected ';' after let declaration."
            || shown
                == "\n\u{1b}[1;31mSyntaxError\u{1b}[0m [line 1]: Expected ';' after let declaration."
    );
}

#[test]
fn errors_accumulate_after_synchronizing() {
    assert_eq!(
        errors("let = 1;\nlet y 2;\nprintln(;"),
        vec![
            (1, "expected identifier after let declaration".to_string()),
            (2, "Expected ';' after let declaration".to_string()),
            (3, "Expected expression. Found \";\"".to_string()),
        ]
    );
}

#[test]
fn end_of_stream_is_reported_not_matched() {
    assert_eq!(errors("1 +"), vec![(1, "Expected expression. Found \"\"".to_string())]);
    assert_eq!(errors("{ a;"), vec![(1, "Unclosed block".to_string())]);
    assert_eq!(errors("(1"), vec![(1, "Expected ')' after expression".to_string())]);
    assert_eq!(errors("a"), vec![(1, "Expected ';' after expression".to_string())]);
}

#[test]
fn empty_token_list_parses_to_nothing() {
    assert!(Parser::new(Vec::new()).parse().unwrap().is_empty());
}

#[test]
fn block_at_the_very_beginning() {
    assert!(matches!(
        &parse("{ let a = 1; }").unwrap()[0],
        Declaration::StmtDecl(Statement::BlockStmt(items)) if items.len() == 1
    ));
}

#[test]
fn parameters_must_be_separated() {
    assert_eq!(
        errors("fn f(a b) { }"),
        vec![(1, "Expected ')' after function parameters".to_string())]
    );
    assert_eq!(errors("fn f(a,) { }"), vec![(1, "Expected parameters identifiers".to_string())]);
    assert_eq!(errors("fn (a) { }"), vec![(1, "Expected function name after 'fn'".to_string())]);
}

#[test]
fn tokens_by_hand() {
    let tokens = vec![
        Token::new("x".to_string(), TokenType::Identifier, 7),
        Token::new(";".to_string(), TokenType::Semicolon, 7),
    ];
    let decls = Parser::new(tokens).parse().unwrap();
    assert!(matches!(
        &decls[0],
        Declaration::StmtDecl(Statement::ExprStmt(Expression::Var(t))) if t.line == 7
    ));
}

#[test]
fn every_other_report_of_the_parser() {
    assert_eq!(errors("f(a b);"), vec![(1, "Expected ')' after function arguments".to_string())]);
    assert_eq!(
        errors("fn f { }"),
        vec![(1, "Expected '(' before function parameters".to_string())]
    );
    assert_eq!(errors("fn f() 1;"), vec![(1, "Expected '{' at begining of block".to_string())]);
    assert_eq!(
        errors("for 1 in 0..3 { }"),
        vec![(1, "Expected identifier after 'for' keyword".to_string())]
    );
    assert_eq!(
        errors("for i of 0..3 { }"),
        vec![(1, "Expected 'in' keyword after identifier in for loop declaration".to_string())]
    );
    assert_eq!(errors("return 1"), vec![(1, "Expected ';' after return value".to_string())]);
    assert_eq!(errors("--x;"), vec![(1, "Expected expression. Found \"-\"".to_string())]);
}

#[test]
fn reports_carry_the_line() {
    assert_eq!(errors("\n\nlet x\n= 1"), vec![(3, "Expected ';' after let declaration".to_string())]);
    assert_eq!(errors("a\n+\nb\nc;"), vec![(3, "Expected ';' after expression".to_string())]);
    assert_eq!(errors("\n{\n\n"), vec![(2, "Unclosed block".to_string())]);
    assert_eq!(errors("x\n=\n1 = 2;"), vec![(3, "Invalid assignment target".to_string())]);
}
