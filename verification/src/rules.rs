//! The grammar, rule by rule, as functions on a sequence of tokens.
//!
//! Each rule takes the tokens and the position at which it begins, and says
//! what it reads there: a tree or a diagnostic, and where the cursor stands
//! afterwards. The parser is proved to compute exactly these functions.

use crate::error::{DiagnosticView, ErrorKind};
use crate::grammar::{DeclView, ExprView, FnDeclView, LiteralView, StmtView};
use crate::text::debug_text;
use crate::token::{TokenKind, TokenType, TokenView};
use vstd::prelude::*;

verus! {

/// What a rule read: a tree or a diagnostic, and where the cursor stands
/// afterwards.
pub struct Parsed<T> {
    pub value: Result<T, DiagnosticView>,
    pub pos: int,
}

/// The rule read `value` and left the cursor at `pos`.
pub open spec fn ok<T>(value: T, pos: int) -> Parsed<T> {
    Parsed { value: Ok(value), pos }
}

/// The rule gave up with the cursor at `pos`.
pub open spec fn fail<T>(line: nat, message: Seq<char>, pos: int) -> Parsed<T> {
    Parsed { value: Err(DiagnosticView { kind: ErrorKind::Syntax, line, message }), pos }
}

/// The same failure, for a rule that reads something else.
pub open spec fn pass<T, U>(failed: Parsed<T>, at: int) -> Parsed<U> {
    Parsed {
        value: Err(
            match failed.value {
                Err(e) => e,
                Ok(_) => DiagnosticView { kind: ErrorKind::Syntax, line: 0, message: Seq::empty() },
            },
        ),
        pos: at,
    }
}

/// The line of the token at `pos`; past the end, the line of the last token;
/// line 1 where there is no token at all.
pub open spec fn line_at(ts: Seq<TokenView>, pos: int) -> nat {
    if 0 <= pos < ts.len() {
        ts[pos].line
    } else if ts.len() > 0 {
        ts[ts.len() - 1].line
    } else {
        1
    }
}

/// The line of the token before `pos`; at the very beginning, the line of the
/// first token.
pub open spec fn line_before(ts: Seq<TokenView>, pos: int) -> nat {
    if 0 < pos <= ts.len() {
        ts[pos - 1].line
    } else {
        line_at(ts, pos)
    }
}

/// The token at `pos`. Past the end it is the sentinel: an empty text of the
/// kind `Eof`, on the last line known.
pub open spec fn token_at(ts: Seq<TokenView>, pos: int) -> TokenView {
    if 0 <= pos < ts.len() {
        ts[pos]
    } else {
        TokenView { lexeme: Seq::empty(), ty: TokenKind::Eof, line: line_at(ts, pos) }
    }
}

/// The kind of the token at `pos`.
pub open spec fn kind_at(ts: Seq<TokenView>, pos: int) -> TokenKind {
    token_at(ts, pos).ty
}

/// Whether a token stands at `pos` and is of the kind `kind`, whatever a
/// literal carries.
pub open spec fn at(ts: Seq<TokenView>, pos: int, kind: TokenType) -> bool {
    0 <= pos < ts.len() && ts[pos].ty.same_kind(kind@)
}

/// Where the cursor stands once a rule that began at `from` has left it at
/// `to`: the cursor moves neither backwards nor past the end.
pub open spec fn advance(ts: Seq<TokenView>, from: int, to: int) -> int {
    if from <= to <= ts.len() {
        to
    } else {
        from
    }
}

/// As `advance`, for a rule that has read at least one token.
pub open spec fn advance_past(ts: Seq<TokenView>, from: int, to: int) -> int {
    if from < to <= ts.len() {
        to
    } else {
        from + 1
    }
}

/// The levels of binary operators, from the loosest to the tightest.
#[derive(Clone, Copy, Debug, PartialEq, Eq, Structural)]
pub enum Level {
    Or,
    And,
    Equality,
    Comparison,
    Term,
    Factor,
}

impl Level {
    /// The place of the level among the levels, counted from the tightest.
    pub open spec fn rank(self) -> int {
        match self {
            Level::Factor => 0,
            Level::Term => 1,
            Level::Comparison => 2,
            Level::Equality => 3,
            Level::And => 4,
            Level::Or => 5,
        }
    }

    /// Whether a token of this kind is an operator of the level.
    pub open spec fn has(self, kind: TokenKind) -> bool {
        match self {
            Level::Or => kind is Or,
            Level::And => kind is And,
            Level::Equality => kind is EqualEqual || kind is BangEqual,
            Level::Comparison => kind is Greater || kind is GreaterEqual || kind is Less
                || kind is LessEqual,
            Level::Term => kind is Minus || kind is Plus,
            Level::Factor => kind is Star || kind is Slash,
        }
    }

    /// The tree of an operator of the level between two operands.
    pub open spec fn join(self, left: ExprView, operator: TokenView, right: ExprView) -> ExprView {
        match self {
            Level::Or | Level::And => ExprView::Logical {
                left: Box::new(left),
                operator,
                right: Box::new(right),
            },
            _ => ExprView::Binary { left: Box::new(left), operator, right: Box::new(right) },
        }
    }
}

/// `primary := NUMBER | STRING | "true" | "false" | "null" | IDENT | "(" expression ")"`
pub open spec fn primary(ts: Seq<TokenView>, pos: int) -> Parsed<ExprView>
    decreases ts.len() - pos, 0int,
{
    let token = token_at(ts, pos);
    let next = if 0 <= pos < ts.len() {
        pos + 1
    } else {
        pos
    };
    match token.ty {
        TokenKind::Number(text) => ok(ExprView::Literal(LiteralView::Number(text)), next),
        TokenKind::String(text) => ok(ExprView::Literal(LiteralView::Str(text)), next),
        TokenKind::False => ok(ExprView::Literal(LiteralView::Boolean(false)), next),
        TokenKind::True => ok(ExprView::Literal(LiteralView::Boolean(true)), next),
        TokenKind::Null => ok(ExprView::Literal(LiteralView::Null), next),
        TokenKind::Identifier => ok(ExprView::Var(token), next),
        TokenKind::LeftParen => {
            let inner = expression(ts, next);
            let p = advance(ts, next, inner.pos);
            match inner.value {
                Err(_) => inner,
                Ok(e) => if at(ts, p, TokenType::RightParen) {
                    ok(ExprView::Grouping(Box::new(e)), p + 1)
                } else {
                    fail(token.line, "Expected ')' after expression"@, p)
                },
            }
        },
        _ => fail(token.line, "Expected expression. Found "@ + debug_text(token.lexeme), next),
    }
}

/// `args := expression ("," expression)*`, up to and with the closing
/// parenthesis; a comma before the parenthesis is tolerated. `done` holds the
/// arguments read so far.
pub open spec fn arguments(ts: Seq<TokenView>, pos: int, done: Seq<ExprView>) -> Parsed<
    Seq<ExprView>,
>
    decreases ts.len() - pos, 30int,
{
    if at(ts, pos, TokenType::RightParen) {
        ok(done, pos + 1)
    } else {
        let arg = expression(ts, pos);
        let p = advance(ts, pos, arg.pos);
        match arg.value {
            Err(_) => pass(arg, arg.pos),
            Ok(e) => if at(ts, p, TokenType::Comma) {
                arguments(ts, p + 1, done.push(e))
            } else if at(ts, p, TokenType::RightParen) {
                ok(done.push(e), p + 1)
            } else {
                fail(line_before(ts, p), "Expected ')' after function arguments"@, p)
            },
        }
    }
}

/// The calls that follow a callee: `("(" args? ")")*`.
pub open spec fn call_tail(ts: Seq<TokenView>, pos: int, callee: ExprView) -> Parsed<ExprView>
    decreases ts.len() - pos, 1int,
{
    if at(ts, pos, TokenType::LeftParen) {
        let args = arguments(ts, pos + 1, Seq::empty());
        let p = advance(ts, pos + 1, args.pos);
        match args.value {
            Err(_) => pass(args, args.pos),
            Ok(list) => call_tail(
                ts,
                p,
                ExprView::Call { callee: Box::new(callee), paren_token: ts[pos], args: list },
            ),
        }
    } else {
        ok(callee, pos)
    }
}

/// `call := primary ("(" args? ")")*`
pub open spec fn call(ts: Seq<TokenView>, pos: int) -> Parsed<ExprView>
    decreases ts.len() - pos, 2int,
{
    let callee = primary(ts, pos);
    let p = advance(ts, pos, callee.pos);
    match callee.value {
        Err(_) => callee,
        Ok(e) => call_tail(ts, p, e),
    }
}

/// `unary := ("-" | "!") primary | call`
pub open spec fn unary(ts: Seq<TokenView>, pos: int) -> Parsed<ExprView>
    decreases ts.len() - pos, 3int,
{
    if at(ts, pos, TokenType::Minus) || at(ts, pos, TokenType::Bang) {
        let operand = primary(ts, pos + 1);
        match operand.value {
            Err(_) => operand,
            Ok(e) => ok(ExprView::Unary { operator: ts[pos], expr: Box::new(e) }, operand.pos),
        }
    } else {
        call(ts, pos)
    }
}

/// An operand of a level: an expression of the next tighter level.
pub open spec fn operand(ts: Seq<TokenView>, pos: int, level: Level) -> Parsed<ExprView>
    decreases ts.len() - pos, 3 * level.rank() + 4,
{
    match level {
        Level::Or => binary(ts, pos, Level::And),
        Level::And => binary(ts, pos, Level::Equality),
        Level::Equality => binary(ts, pos, Level::Comparison),
        Level::Comparison => binary(ts, pos, Level::Term),
        Level::Term => binary(ts, pos, Level::Factor),
        Level::Factor => unary(ts, pos),
    }
}

/// The operators of a level and their right operands that follow `left`;
/// they group to the left.
pub open spec fn binary_tail(ts: Seq<TokenView>, pos: int, level: Level, left: ExprView) -> Parsed<
    ExprView,
>
    decreases ts.len() - pos, 3 * level.rank() + 5,
{
    if level.has(kind_at(ts, pos)) {
        let right = operand(ts, pos + 1, level);
        let p = advance(ts, pos + 1, right.pos);
        match right.value {
            Err(_) => right,
            Ok(e) => binary_tail(ts, p, level, level.join(left, ts[pos], e)),
        }
    } else {
        ok(left, pos)
    }
}

/// One level of binary operators: `operand (operator operand)*`.
///
/// `or := and ("or" and)*`, `and := equality ("and" equality)*`,
/// `equality := comparison (("==" | "!=") comparison)*`,
/// `comparison := term (("<" | "<=" | ">" | ">=") term)*`,
/// `term := factor (("+" | "-") factor)*`, `factor := unary (("*" | "/") unary)*`.
pub open spec fn binary(ts: Seq<TokenView>, pos: int, level: Level) -> Parsed<ExprView>
    decreases ts.len() - pos, 3 * level.rank() + 6,
{
    let left = operand(ts, pos, level);
    let p = advance(ts, pos, left.pos);
    match left.value {
        Err(_) => left,
        Ok(e) => binary_tail(ts, p, level, e),
    }
}

/// `range := or (".." or)?`
pub open spec fn range(ts: Seq<TokenView>, pos: int) -> Parsed<ExprView>
    decreases ts.len() - pos, 22int,
{
    let left = binary(ts, pos, Level::Or);
    let p = advance(ts, pos, left.pos);
    match left.value {
        Err(_) => left,
        Ok(l) => if at(ts, p, TokenType::DotDot) {
            let right = binary(ts, p + 1, Level::Or);
            match right.value {
                Err(_) => right,
                Ok(r) => ok(ExprView::Range { left: Box::new(l), right: Box::new(r) }, right.pos),
            }
        } else {
            left
        },
    }
}

/// `assignment := range ("=" assignment)?`, where what stands left of the
/// `=` must be a variable.
pub open spec fn assignment(ts: Seq<TokenView>, pos: int) -> Parsed<ExprView>
    decreases ts.len() - pos, 23int,
{
    let target = range(ts, pos);
    let p = advance(ts, pos, target.pos);
    match target.value {
        Err(_) => target,
        Ok(t) => if at(ts, p, TokenType::Equal) {
            let value = assignment(ts, p + 1);
            match value.value {
                Err(_) => value,
                Ok(v) => match t {
                    ExprView::Var(ident) => ok(
                        ExprView::Assignment { ident, expr: Box::new(v) },
                        value.pos,
                    ),
                    _ => fail(ts[p].line, "Invalid assignment target"@, value.pos),
                },
            }
        } else {
            target
        },
    }
}

/// `expression := assignment`
pub open spec fn expression(ts: Seq<TokenView>, pos: int) -> Parsed<ExprView>
    decreases ts.len() - pos, 24int,
{
    assignment(ts, pos)
}

/// The names of the parameters that follow the first, up to and with the
/// closing parenthesis. `line` is the line of the opening one.
pub open spec fn parameter_list(
    ts: Seq<TokenView>,
    pos: int,
    line: nat,
    done: Seq<TokenView>,
) -> Parsed<Seq<TokenView>>
    decreases ts.len() - pos,
{
    if at(ts, pos, TokenType::Identifier) {
        if at(ts, pos + 1, TokenType::Comma) {
            parameter_list(ts, pos + 2, line, done.push(ts[pos]))
        } else if at(ts, pos + 1, TokenType::RightParen) {
            ok(done.push(ts[pos]), pos + 2)
        } else {
            fail(line_before(ts, pos + 1), "Expected ')' after function parameters"@, pos + 1)
        }
    } else {
        fail(line, "Expected parameters identifiers"@, pos)
    }
}

/// `"(" params? ")"` with `params := IDENT ("," IDENT)*`
pub open spec fn parameters(ts: Seq<TokenView>, pos: int) -> Parsed<Seq<TokenView>> {
    if at(ts, pos, TokenType::LeftParen) {
        if at(ts, pos + 1, TokenType::RightParen) {
            ok(Seq::empty(), pos + 2)
        } else {
            parameter_list(ts, pos + 1, ts[pos].line, Seq::empty())
        }
    } else {
        fail(line_before(ts, pos), "Expected '(' before function parameters"@, pos)
    }
}

/// A token that the parser makes up when it rewrites a `for` loop.
pub open spec fn made_token(text: Seq<char>, ty: TokenKind, line: nat) -> TokenView {
    TokenView { lexeme: text, ty, line }
}

/// What `for variable in first..last body` stands for: a block that declares
/// the variable with the first number, and loops while it is less than the
/// last, adding one after each round.
pub open spec fn for_loop(
    variable: TokenView,
    first: Seq<char>,
    last: Seq<char>,
    body: Seq<DeclView>,
    line: nat,
) -> StmtView {
    let counter = ExprView::Var(variable);
    let condition = ExprView::Binary {
        left: Box::new(counter),
        operator: made_token("<"@, TokenKind::Less, line),
        right: Box::new(ExprView::Literal(LiteralView::Number(last))),
    };
    let next = ExprView::Binary {
        left: Box::new(counter),
        operator: made_token("+"@, TokenKind::Plus, line),
        right: Box::new(ExprView::Literal(LiteralView::Number("1"@))),
    };
    let step = DeclView::StmtDecl(
        StmtView::ExprStmt(ExprView::Assignment { ident: variable, expr: Box::new(next) }),
    );
    let repeat = StmtView::WhileStmt {
        condition,
        body: Box::new(StmtView::BlockStmt(body.push(step))),
    };
    StmtView::BlockStmt(
        seq![
            DeclView::LetDecl {
                ident: variable,
                init: Some(ExprView::Literal(LiteralView::Number(first))),
            },
            DeclView::StmtDecl(repeat),
        ],
    )
}

/// The statement that a `for` loop stands for, once its parts are read: the
/// bounds must be two number literals joined by `..`.
#[verifier::opaque]
pub open spec fn for_parts(
    variable: TokenView,
    bounds: ExprView,
    body: StmtView,
    line: nat,
    pos: int,
) -> Parsed<StmtView> {
    match bounds {
        ExprView::Range { left, right } => match (*left, *right) {
            (
                ExprView::Literal(LiteralView::Number(first)),
                ExprView::Literal(LiteralView::Number(last)),
            ) => match body {
                StmtView::BlockStmt(decls) => ok(for_loop(variable, first, last, decls, line), pos),
                _ => fail(line, "Expected block after for loop declaration"@, pos),
            },
            _ => fail(line, "Expected range operands to evaluate to a number"@, pos),
        },
        _ => fail(line, "Expected range expression (a..b) in for loop declaration"@, pos),
    }
}

/// The declarations of a block up to and with its closing brace. `line` is
/// the line of the opening brace, `done` holds the declarations read so far.
pub open spec fn block_items(ts: Seq<TokenView>, pos: int, line: nat, done: Seq<DeclView>) -> Parsed<
    StmtView,
>
    decreases ts.len() - pos, 50int,
{
    if pos < 0 || pos >= ts.len() {
        fail(line, "Unclosed block"@, pos)
    } else if at(ts, pos, TokenType::RightBrace) {
        ok(StmtView::BlockStmt(done), pos + 1)
    } else {
        let item = declaration(ts, pos);
        match item.value {
            Err(_) => pass(item, item.pos),
            Ok(d) => block_items(ts, advance_past(ts, pos, item.pos), line, done.push(d)),
        }
    }
}

/// `block := "{" declaration* "}"`
pub open spec fn block(ts: Seq<TokenView>, pos: int) -> Parsed<StmtView>
    decreases ts.len() - pos, 40int,
{
    if at(ts, pos, TokenType::LeftBrace) {
        block_items(ts, pos + 1, ts[pos].line, Seq::empty())
    } else {
        fail(line_before(ts, pos), "Expected '{' at begining of block"@, pos)
    }
}

/// `ifStmt := "if" expression statement ("else" statement)?`, with the
/// cursor on the `if`.
pub open spec fn if_statement(ts: Seq<TokenView>, pos: int) -> Parsed<StmtView>
    decreases ts.len() - pos, 41int,
    when 0 <= pos < ts.len()
{
    let condition = expression(ts, pos + 1);
    let p = advance(ts, pos + 1, condition.pos);
    match condition.value {
        Err(_) => pass(condition, condition.pos),
        Ok(c) => {
            let first = statement(ts, p);
            let q = advance(ts, p, first.pos);
            match first.value {
                Err(_) => first,
                Ok(t) => if at(ts, q, TokenType::Else) {
                    let second = statement(ts, q + 1);
                    match second.value {
                        Err(_) => second,
                        Ok(e) => ok(
                            StmtView::IfStmt {
                                condition: c,
                                if_branch: Box::new(t),
                                else_branch: Some(Box::new(e)),
                            },
                            second.pos,
                        ),
                    }
                } else {
                    ok(
                        StmtView::IfStmt {
                            condition: c,
                            if_branch: Box::new(t),
                            else_branch: None,
                        },
                        q,
                    )
                },
            }
        },
    }
}

/// `whileStmt := "while" expression statement`, with the cursor on the
/// `while`.
pub open spec fn while_statement(ts: Seq<TokenView>, pos: int) -> Parsed<StmtView>
    decreases ts.len() - pos, 41int,
    when 0 <= pos < ts.len()
{
    let condition = expression(ts, pos + 1);
    let p = advance(ts, pos + 1, condition.pos);
    match condition.value {
        Err(_) => pass(condition, condition.pos),
        Ok(c) => {
            let body = statement(ts, p);
            match body.value {
                Err(_) => body,
                Ok(b) => ok(StmtView::WhileStmt { condition: c, body: Box::new(b) }, body.pos),
            }
        },
    }
}

/// `"for" IDENT "in" range block`, with the cursor on the `for`. The loop is
/// rewritten at once into a block with a `while`.
pub open spec fn for_statement(ts: Seq<TokenView>, pos: int) -> Parsed<StmtView>
    decreases ts.len() - pos, 41int,
{
    let line = ts[pos].line;
    if !at(ts, pos + 1, TokenType::Identifier) {
        fail(line, "Expected identifier after 'for' keyword"@, pos + 1)
    } else if !at(ts, pos + 2, TokenType::In) {
        fail(line, "Expected 'in' keyword after identifier in for loop declaration"@, pos + 2)
    } else {
        let bounds = range(ts, pos + 3);
        let p = advance(ts, pos + 3, bounds.pos);
        match bounds.value {
            Err(_) => pass(bounds, bounds.pos),
            Ok(b) => {
                let body = block(ts, p);
                match body.value {
                    Err(_) => body,
                    Ok(s) => for_parts(ts[pos + 1], b, s, line, body.pos),
                }
            },
        }
    }
}

/// `returnStmt := "return" expression? ";"`, with the cursor on the `return`.
pub open spec fn return_statement(ts: Seq<TokenView>, pos: int) -> Parsed<StmtView>
    decreases ts.len() - pos, 41int,
    when 0 <= pos < ts.len()
{
    if at(ts, pos + 1, TokenType::Semicolon) {
        ok(StmtView::ReturnStmt { return_token: ts[pos], expr: None }, pos + 2)
    } else {
        let value = expression(ts, pos + 1);
        let p = advance(ts, pos + 1, value.pos);
        match value.value {
            Err(_) => pass(value, value.pos),
            Ok(e) => if at(ts, p, TokenType::Semicolon) {
                ok(StmtView::ReturnStmt { return_token: ts[pos], expr: Some(e) }, p + 1)
            } else {
                fail(ts[pos].line, "Expected ';' after return value"@, p)
            },
        }
    }
}

/// `exprStmt := expression ";"`
pub open spec fn expression_statement(ts: Seq<TokenView>, pos: int) -> Parsed<StmtView>
    decreases ts.len() - pos, 41int,
{
    let value = expression(ts, pos);
    let p = advance(ts, pos, value.pos);
    match value.value {
        Err(_) => pass(value, value.pos),
        Ok(e) => if at(ts, p, TokenType::Semicolon) {
            ok(StmtView::ExprStmt(e), p + 1)
        } else {
            fail(line_before(ts, p), "Expected ';' after expression"@, p)
        },
    }
}

/// `statement := block | ifStmt | whileStmt | forStmt | returnStmt | exprStmt`
pub open spec fn statement(ts: Seq<TokenView>, pos: int) -> Parsed<StmtView>
    decreases ts.len() - pos, 42int,
{
    if at(ts, pos, TokenType::LeftBrace) {
        block(ts, pos)
    } else if at(ts, pos, TokenType::If) {
        if_statement(ts, pos)
    } else if at(ts, pos, TokenType::While) {
        while_statement(ts, pos)
    } else if at(ts, pos, TokenType::For) {
        for_statement(ts, pos)
    } else if at(ts, pos, TokenType::Return) {
        return_statement(ts, pos)
    } else {
        expression_statement(ts, pos)
    }
}

/// `letDecl := "let" IDENT ("=" expression)? ";"`, with the cursor on the
/// `let`.
pub open spec fn let_declaration(ts: Seq<TokenView>, pos: int) -> Parsed<DeclView>
    decreases ts.len() - pos, 41int,
{
    let line = ts[pos].line;
    if !at(ts, pos + 1, TokenType::Identifier) {
        fail(line, "expected identifier after let declaration"@, pos + 1)
    } else if at(ts, pos + 2, TokenType::Equal) {
        let init = expression(ts, pos + 3);
        let p = advance(ts, pos + 3, init.pos);
        match init.value {
            Err(_) => pass(init, init.pos),
            Ok(e) => if at(ts, p, TokenType::Semicolon) {
                ok(DeclView::LetDecl { ident: ts[pos + 1], init: Some(e) }, p + 1)
            } else {
                fail(line, "Expected ';' after let declaration"@, p)
            },
        }
    } else if at(ts, pos + 2, TokenType::Semicolon) {
        ok(DeclView::LetDecl { ident: ts[pos + 1], init: None }, pos + 3)
    } else {
        fail(line, "Expected ';' after let declaration"@, pos + 2)
    }
}

/// `fnDecl := "fn" IDENT "(" params? ")" block`, with the cursor on the `fn`.
pub open spec fn fn_declaration(ts: Seq<TokenView>, pos: int) -> Parsed<DeclView>
    decreases ts.len() - pos, 41int,
{
    if !at(ts, pos + 1, TokenType::Identifier) {
        fail(ts[pos].line, "Expected function name after 'fn'"@, pos + 1)
    } else {
        let params = parameters(ts, pos + 2);
        let p = advance(ts, pos + 2, params.pos);
        match params.value {
            Err(_) => pass(params, params.pos),
            Ok(names) => {
                let body = block(ts, p);
                match body.value {
                    Err(_) => pass(body, body.pos),
                    Ok(b) => ok(
                        DeclView::FnDecl(FnDeclView { ident: ts[pos + 1], params: names, body: b }),
                        body.pos,
                    ),
                }
            },
        }
    }
}

/// `declaration := letDecl | fnDecl | statement`
pub open spec fn declaration(ts: Seq<TokenView>, pos: int) -> Parsed<DeclView>
    decreases ts.len() - pos, 43int,
{
    if at(ts, pos, TokenType::Let) {
        let_declaration(ts, pos)
    } else if at(ts, pos, TokenType::Fn) {
        fn_declaration(ts, pos)
    } else {
        let inner = statement(ts, pos);
        match inner.value {
            Err(_) => pass(inner, inner.pos),
            Ok(s) => ok(DeclView::StmtDecl(s), inner.pos),
        }
    }
}

/// Whether a declaration or a statement may begin with a token of this kind,
/// so that the parser can take up its work again there.
pub open spec fn begins_declaration(ts: Seq<TokenView>, pos: int) -> bool {
    at(ts, pos, TokenType::Class) || at(ts, pos, TokenType::Let) || at(ts, pos, TokenType::Fn)
        || at(ts, pos, TokenType::For) || at(ts, pos, TokenType::While) || at(
        ts,
        pos,
        TokenType::If,
    ) || at(ts, pos, TokenType::Return)
}

/// Skips tokens until the one before the cursor is a semicolon, or the one at
/// the cursor may begin a declaration, or the tokens have run out.
#[verifier::opaque]
pub open spec fn skip(ts: Seq<TokenView>, pos: int) -> int
    decreases ts.len() - pos,
{
    if pos < 0 || pos >= ts.len() {
        pos
    } else if at(ts, pos - 1, TokenType::Semicolon) {
        pos
    } else if begins_declaration(ts, pos) {
        pos
    } else {
        skip(ts, pos + 1)
    }
}

/// Where the parser takes up its work again after a failure that left the
/// cursor at `pos`: one token is passed over, then tokens are skipped.
pub open spec fn synchronize(ts: Seq<TokenView>, pos: int) -> int {
    if 0 <= pos < ts.len() {
        skip(ts, pos + 1)
    } else {
        pos
    }
}

/// The declarations and the diagnostics of a whole program.
pub struct Program {
    pub declarations: Seq<DeclView>,
    pub errors: Seq<DiagnosticView>,
}

/// What the parser makes of the tokens from `pos` on, after it has made `done`
/// of those before: every declaration that it can read is added, and a
/// diagnostic for every place where it had to give up and skip.
#[verifier::opaque]
pub open spec fn program_from(ts: Seq<TokenView>, pos: int, done: Program) -> Program
    decreases ts.len() - pos,
{
    if pos < 0 || pos >= ts.len() {
        done
    } else {
        let item = declaration(ts, pos);
        match item.value {
            Ok(d) => program_from(
                ts,
                advance_past(ts, pos, item.pos),
                Program { declarations: done.declarations.push(d), errors: done.errors },
            ),
            Err(e) => program_from(
                ts,
                advance_past(ts, pos, synchronize(ts, advance(ts, pos, item.pos))),
                Program { declarations: done.declarations, errors: done.errors.push(e) },
            ),
        }
    }
}

/// What `parse` answers: the declarations where nothing was reported, else
/// everything that was reported.
pub open spec fn program(ts: Seq<TokenView>) -> Result<Seq<DeclView>, Seq<DiagnosticView>> {
    let all = program_from(ts, 0, Program { declarations: Seq::empty(), errors: Seq::empty() });
    if all.errors.len() == 0 {
        Ok(all.declarations)
    } else {
        Err(all.errors)
    }
}

/// How `program_from` goes on after one declaration that was read, and after
/// one place where the parser gave up.
pub proof fn lemma_program_step(ts: Seq<TokenView>, pos: int, done: Program)
    requires
        0 <= pos < ts.len(),
    ensures
        ({
            let item = declaration(ts, pos);
            match item.value {
                Ok(d) => pos < item.pos <= ts.len() ==> program_from(ts, pos, done)
                    == program_from(
                    ts,
                    item.pos,
                    Program { declarations: done.declarations.push(d), errors: done.errors },
                ),
                Err(e) => pos <= item.pos <= ts.len() ==> {
                    let next = synchronize(ts, item.pos);
                    &&& pos < next <= ts.len()
                    &&& program_from(ts, pos, done) == program_from(
                        ts,
                        next,
                        Program { declarations: done.declarations, errors: done.errors.push(e) },
                    )
                },
            }
        }),
{
    reveal(program_from);
    let item = declaration(ts, pos);
    if item.value is Err && pos <= item.pos <= ts.len() {
        lemma_skip_bounds(ts, item.pos + 1);
    }
}

/// Behind the last token nothing is left to read.
pub proof fn lemma_program_end(ts: Seq<TokenView>, pos: int, done: Program)
    requires
        pos >= ts.len(),
    ensures
        program_from(ts, pos, done) == done,
{
    reveal(program_from);
}

/// Skipping moves the cursor forwards and not past the end.
pub proof fn lemma_skip_bounds(ts: Seq<TokenView>, pos: int)
    requires
        0 <= pos,
    ensures
        pos <= skip(ts, pos),
        pos <= ts.len() ==> skip(ts, pos) <= ts.len(),
    decreases ts.len() - pos,
{
    reveal(skip);
    if pos < ts.len() && !at(ts, pos - 1, TokenType::Semicolon) && !begins_declaration(ts, pos) {
        lemma_skip_bounds(ts, pos + 1);
    }
}

} // verus!
