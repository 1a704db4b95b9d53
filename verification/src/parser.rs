//! The parser: tokens to declarations, by recursive descent.

use crate::error::{Diagnostic, DiagnosticView, ErrorKind, diagnostics_view};
use crate::grammar::{Declaration, Expression, FnDecl, Literal, Statement, decls_view, exprs_view};
use crate::grammar::{DeclView, ExprView, StmtView};
use crate::rules::{
    Level, Parsed, Program, at, arguments, assignment, binary, binary_tail, block, block_items,
    call, call_tail, declaration, expression, expression_statement, fn_declaration, for_parts,
    for_statement, if_statement, lemma_program_end, lemma_program_step, let_declaration,
    line_before, operand, parameter_list, parameters, primary, program, program_from, range,
    return_statement, skip, statement, synchronize, token_at, unary, while_statement,
};
use crate::text::quoted;
use crate::token::{Token, TokenType, TokenView, tokens_view};
use vstd::prelude::*;

verus! {

impl Level {
    /// Whether a token of kind `ty` is an operator of the level.
    pub fn is_operator(self, ty: &TokenType) -> (r: bool)
        ensures
            r == self.has(ty@),
    {
        match self {
            Level::Or => matches!(ty, TokenType::Or),
            Level::And => matches!(ty, TokenType::And),
            Level::Equality => matches!(ty, TokenType::EqualEqual | TokenType::BangEqual),
            Level::Comparison => matches!(
                ty,
                TokenType::Greater | TokenType::GreaterEqual | TokenType::Less | TokenType::LessEqual
            ),
            Level::Term => matches!(ty, TokenType::Minus | TokenType::Plus),
            Level::Factor => matches!(ty, TokenType::Star | TokenType::Slash),
        }
    }

    /// The tree of `operator` between `left` and `right`.
    pub fn node(self, left: Expression, operator: Token, right: Expression) -> (r: Expression)
        ensures
            r@ == self.join(left@, operator@, right@),
    {
        proof {
            reveal(Expression::model);
        }
        match self {
            Level::Or | Level::And => Expression::Logical {
                left: Box::new(left),
                operator,
                right: Box::new(right),
            },
            _ => Expression::Binary { left: Box::new(left), operator, right: Box::new(right) },
        }
    }
}

/// The parser. It holds the tokens and a cursor into them.
pub struct Parser {
    tokens: Vec<Token>,
    current: usize,
    /// What `peek` answers once the tokens have run out.
    eof: Token,
}

impl Parser {
    /// The tokens that this parser reads.
    pub closed spec fn input(&self) -> Seq<TokenView> {
        tokens_view(self.tokens@)
    }

    /// The cursor lies inside the tokens or just behind them, and the
    /// sentinel stands on the last line.
    pub closed spec fn wf(&self) -> bool {
        &&& self.current <= self.tokens.len()
        &&& self.eof@ == token_at(self.input(), self.tokens.len() as int)
    }

    /// Whether this parser, which was `before` when a rule began, and the
    /// rule's answer `r` are as `expected` says. A rule that succeeds has read
    /// at least one token.
    spec fn agrees<T: View>(
        &self,
        before: &Parser,
        r: Result<T, Diagnostic>,
        expected: Parsed<T::V>,
    ) -> bool {
        &&& self.wf()
        &&& self.tokens == before.tokens
        &&& before.current <= self.current
        &&& self.current == expected.pos
        &&& match r {
            Ok(v) => expected.value == Ok::<T::V, DiagnosticView>(v@) && before.current
                < self.current,
            Err(d) => expected.value == Err::<T::V, DiagnosticView>(d@),
        }
    }

    /// A parser at the beginning of `tokens`.
    pub fn new(tokens: Vec<Token>) -> (r: Self)
        ensures
            r.wf(),
            r.input() == tokens_view(tokens@),
    {
        let line = if tokens.len() > 0 {
            tokens[tokens.len() - 1].line
        } else {
            1
        };
        let eof = Token::new(String::new(), TokenType::Eof, line);
        Self { tokens, current: 0, eof }
    }

    /// Whether the tokens have run out.
    fn finished(&self) -> (r: bool)
        ensures
            r == (self.current >= self.tokens.len()),
    {
        self.current >= self.tokens.len()
    }

    /// The token at the cursor; the sentinel once the tokens have run out.
    fn peek(&self) -> (t: &Token)
        requires
            self.wf(),
        ensures
            t@ == token_at(self.input(), self.current as int),
    {
        if self.current < self.tokens.len() {
            &self.tokens[self.current]
        } else {
            &self.eof
        }
    }

    /// Whether a token stands at the cursor and is of the kind `ty`.
    fn at(&self, ty: &TokenType) -> (r: bool)
        requires
            self.wf(),
        ensures
            r == at(self.input(), self.current as int, *ty),
    {
        self.current < self.tokens.len() && self.tokens[self.current].ty.same_kind(ty)
    }

    /// The line of the token before the cursor.
    fn peek_previous(&self) -> (line: usize)
        requires
            self.wf(),
        ensures
            line == line_before(self.input(), self.current as int),
    {
        if self.current > 0 {
            self.tokens[self.current - 1].line
        } else {
            self.peek().line
        }
    }

    /// Takes the token at the cursor. Once the tokens have run out, the
    /// cursor stays and the answer is the sentinel.
    fn next_token(&mut self) -> (t: Token)
        requires
            old(self).wf(),
        ensures
            final(self).wf(),
            final(self).tokens == old(self).tokens,
            t@ == token_at(old(self).input(), old(self).current as int),
            final(self).current == if old(self).current < old(self).tokens.len() {
                old(self).current + 1
            } else {
                old(self).current as int
            },
    {
        let token = self.peek().clone();
        if self.current < self.tokens.len() {
            self.current = self.current + 1;
        }
        token
    }

    /// Takes the token at the cursor if it is of the kind `ty`; else the
    /// cursor stays, and the answer is a diagnostic on `line`.
    fn expect(&mut self, ty: &TokenType, msg: &str, line: usize) -> (r: Result<Token, Diagnostic>)
        requires
            old(self).wf(),
        ensures
            final(self).wf(),
            final(self).tokens == old(self).tokens,
            match r {
                Ok(t) => {
                    &&& at(old(self).input(), old(self).current as int, *ty)
                    &&& t@ == old(self).input()[old(self).current as int]
                    &&& final(self).current == old(self).current + 1
                },
                Err(d) => {
                    &&& !at(old(self).input(), old(self).current as int, *ty)
                    &&& d@ == (DiagnosticView {
                        kind: ErrorKind::Syntax,
                        line: line as nat,
                        message: msg@,
                    })
                    &&& final(self).current == old(self).current
                },
            },
    {
        if self.at(ty) {
            return Ok(self.next_token());
        }
        Err(Diagnostic::syntax(line, String::from_str(msg)))
    }

    /// `primary := NUMBER | STRING | "true" | "false" | "null" | IDENT | "(" expression ")"`
    fn parse_primary(&mut self) -> (r: Result<Expression, Diagnostic>)
        requires
            old(self).wf(),
        ensures
            final(self).agrees(old(self), r, primary(old(self).input(), old(self).current as int)),
        decreases old(self).tokens.len() - old(self).current, 0int,
    {
        proof {
            reveal(Expression::model);
        }
        let token = self.next_token();
        match &token.ty {
            TokenType::Number(text) => Ok(Expression::Literal(Literal::Number(text.clone()))),
            TokenType::String(text) => Ok(Expression::Literal(Literal::Str(text.clone()))),
            TokenType::False => Ok(Expression::Literal(Literal::Boolean(false))),
            TokenType::True => Ok(Expression::Literal(Literal::Boolean(true))),
            TokenType::Null => Ok(Expression::Literal(Literal::Null)),
            TokenType::Identifier => Ok(Expression::Var(token)),
            TokenType::LeftParen => {
                let inner = match self.parse_expression() {
                    Ok(e) => e,
                    Err(d) => {
                        return Err(d);
                    },
                };
                match self.expect(&TokenType::RightParen, "Expected ')' after expression", token.line) {
                    Ok(_) => Ok(Expression::Grouping(Box::new(inner))),
                    Err(d) => Err(d),
                }
            },
            _ => {
                let mut message = String::from_str("Expected expression. Found ");
                let found = quoted(token.lexeme.as_str());
                message.append(found.as_str());
                Err(Diagnostic::syntax(token.line, message))
            },
        }
    }

    /// The arguments of a call, up to and with the closing parenthesis, and
    /// the tree of the call.
    fn parse_fn_args(&mut self, callee: Expression, paren_token: Token) -> (r: Result<
        Expression,
        Diagnostic,
    >)
        requires
            old(self).wf(),
        ensures
            final(self).wf(),
            final(self).tokens == old(self).tokens,
            old(self).current <= final(self).current,
            final(self).current == arguments(
                old(self).input(),
                old(self).current as int,
                Seq::empty(),
            ).pos,
            match r {
                Ok(e) => {
                    &&& arguments(
                        old(self).input(),
                        old(self).current as int,
                        Seq::empty(),
                    ).value matches Ok(list)
                    &&& e@ == (ExprView::Call {
                        callee: Box::new(callee@),
                        paren_token: paren_token@,
                        args: list,
                    })
                    &&& old(self).current < final(self).current
                },
                Err(d) => arguments(
                    old(self).input(),
                    old(self).current as int,
                    Seq::empty(),
                ).value == Err::<Seq<ExprView>, DiagnosticView>(d@),
            },
        decreases old(self).tokens.len() - old(self).current, 30int,
    {
        proof {
            reveal(Expression::model);
        }
        let ghost ts = self.input();
        let ghost target = arguments(ts, self.current as int, Seq::empty());
        let mut args: Vec<Expression> = Vec::new();
        let mut closed = false;
        assert(exprs_view(args@) =~= Seq::<ExprView>::empty());
        while !closed
            invariant
                self.wf(),
                self.tokens == old(self).tokens,
                ts == self.input(),
                old(self).current <= self.current,
                target == arguments(ts, old(self).current as int, Seq::empty()),
                !closed ==> arguments(ts, self.current as int, exprs_view(args@)) == target,
                closed ==> target == crate::rules::ok(exprs_view(args@), self.current as int)
                    && old(self).current < self.current,
            decreases
                    self.tokens.len() - self.current + if closed {
                        0int
                    } else {
                        1int
                    },
        {
            if self.at(&TokenType::RightParen) {
                self.next_token();
                closed = true;
            } else {
                let ghost before = exprs_view(args@);
                let arg = match self.parse_expression() {
                    Ok(e) => e,
                    Err(d) => {
                        return Err(d);
                    },
                };
                args.push(arg);
                assert(exprs_view(args@) =~= before.push(arg@));
                if self.at(&TokenType::Comma) {
                    self.next_token();
                } else {
                    let line = self.peek_previous();
                    match self.expect(
                        &TokenType::RightParen,
                        "Expected ')' after function arguments",
                        line,
                    ) {
                        Ok(_) => {
                            closed = true;
                        },
                        Err(d) => {
                            return Err(d);
                        },
                    }
                }
            }
        }
        let e = Expression::Call { callee: Box::new(callee), paren_token, args };
        assert(e@->Call_args =~= exprs_view(args@));
        Ok(e)
    }

    /// `call := primary ("(" args? ")")*`
    fn parse_call(&mut self) -> (r: Result<Expression, Diagnostic>)
        requires
            old(self).wf(),
        ensures
            final(self).agrees(old(self), r, call(old(self).input(), old(self).current as int)),
        decreases old(self).tokens.len() - old(self).current, 2int,
    {
        let ghost ts = self.input();
        let mut callee = match self.parse_primary() {
            Ok(e) => e,
            Err(d) => {
                return Err(d);
            },
        };
        let ghost target = call_tail(ts, self.current as int, callee@);
        while self.at(&TokenType::LeftParen)
            invariant
                self.wf(),
                self.tokens == old(self).tokens,
                ts == self.input(),
                old(self).current < self.current,
                target == call(ts, old(self).current as int),
                call_tail(ts, self.current as int, callee@) == target,
            decreases self.tokens.len() - self.current,
        {
            // takes the opening parenthesis

            let token = self.next_token();
            callee = match self.parse_fn_args(callee, token) {
                Ok(e) => e,
                Err(d) => {
                    return Err(d);
                },
            };
        }
        Ok(callee)
    }

    /// `unary := ("-" | "!") primary | call`
    fn parse_unary(&mut self) -> (r: Result<Expression, Diagnostic>)
        requires
            old(self).wf(),
        ensures
            final(self).agrees(old(self), r, unary(old(self).input(), old(self).current as int)),
        decreases old(self).tokens.len() - old(self).current, 3int,
    {
        proof {
            reveal(Expression::model);
        }
        if self.at(&TokenType::Minus) || self.at(&TokenType::Bang) {
            let operator = self.next_token();
            match self.parse_primary() {
                Ok(e) => Ok(Expression::Unary { operator, expr: Box::new(e) }),
                Err(d) => Err(d),
            }
        } else {
            self.parse_call()
        }
    }

    /// An operand of a level: an expression of the next tighter level.
    fn parse_operand(&mut self, level: Level) -> (r: Result<Expression, Diagnostic>)
        requires
            old(self).wf(),
        ensures
            final(self).agrees(
                old(self),
                r,
                operand(old(self).input(), old(self).current as int, level),
            ),
        decreases old(self).tokens.len() - old(self).current, 3 * level.rank() + 4,
    {
        match level {
            Level::Or => self.parse_binary(Level::And),
            Level::And => self.parse_binary(Level::Equality),
            Level::Equality => self.parse_binary(Level::Comparison),
            Level::Comparison => self.parse_binary(Level::Term),
            Level::Term => self.parse_binary(Level::Factor),
            Level::Factor => self.parse_unary(),
        }
    }

    /// One level of binary operators, which group to the left.
    fn parse_binary(&mut self, level: Level) -> (r: Result<Expression, Diagnostic>)
        requires
            old(self).wf(),
        ensures
            final(self).agrees(
                old(self),
                r,
                binary(old(self).input(), old(self).current as int, level),
            ),
        decreases old(self).tokens.len() - old(self).current, 3 * level.rank() + 6,
    {
        let ghost ts = self.input();
        let mut left = match self.parse_operand(level) {
            Ok(e) => e,
            Err(d) => {
                return Err(d);
            },
        };
        let ghost target = binary_tail(ts, self.current as int, level, left@);
        while level.is_operator(&self.peek().ty)
            invariant
                self.wf(),
                self.tokens == old(self).tokens,
                ts == self.input(),
                old(self).current < self.current,
                target == binary(ts, old(self).current as int, level),
                binary_tail(ts, self.current as int, level, left@) == target,
            decreases self.tokens.len() - self.current,
        {
            let operator = self.next_token();
            let right = match self.parse_operand(level) {
                Ok(e) => e,
                Err(d) => {
                    return Err(d);
                },
            };
            left = level.node(left, operator, right);
        }
        Ok(left)
    }

    /// `range := or (".." or)?`
    fn parse_range(&mut self) -> (r: Result<Expression, Diagnostic>)
        requires
            old(self).wf(),
        ensures
            final(self).agrees(old(self), r, range(old(self).input(), old(self).current as int)),
        decreases old(self).tokens.len() - old(self).current, 22int,
    {
        proof {
            reveal(Expression::model);
        }
        let left = match self.parse_binary(Level::Or) {
            Ok(e) => e,
            Err(d) => {
                return Err(d);
            },
        };
        if self.at(&TokenType::DotDot) {
            self.next_token();
            return match self.parse_binary(Level::Or) {
                Ok(right) => Ok(Expression::Range { left: Box::new(left), right: Box::new(right) }),
                Err(d) => Err(d),
            };
        }
        Ok(left)
    }

    /// `assignment := range ("=" assignment)?`
    fn parse_assignment(&mut self) -> (r: Result<Expression, Diagnostic>)
        requires
            old(self).wf(),
        ensures
            final(self).agrees(
                old(self),
                r,
                assignment(old(self).input(), old(self).current as int),
            ),
        decreases old(self).tokens.len() - old(self).current, 23int,
    {
        proof {
            reveal(Expression::model);
        }
        let target = match self.parse_range() {
            Ok(e) => e,
            Err(d) => {
                return Err(d);
            },
        };
        if self.at(&TokenType::Equal) {
            // takes the '='

            let equals = self.next_token();
            let value = match self.parse_assignment() {
                Ok(e) => e,
                Err(d) => {
                    return Err(d);
                },
            };
            return match target {
                Expression::Var(ident) => Ok(
                    Expression::Assignment { ident, expr: Box::new(value) },
                ),
                _ => Err(
                    Diagnostic::syntax(equals.line, String::from_str("Invalid assignment target")),
                ),
            };
        }
        Ok(target)
    }

    /// `expression := assignment`
    fn parse_expression(&mut self) -> (r: Result<Expression, Diagnostic>)
        requires
            old(self).wf(),
        ensures
            final(self).agrees(
                old(self),
                r,
                expression(old(self).input(), old(self).current as int),
            ),
        decreases old(self).tokens.len() - old(self).current, 24int,
    {
        self.parse_assignment()
    }

    /// The parameters of a function declaration, parentheses included:
    /// `"(" (IDENT ("," IDENT)*)? ")"`.
    fn parse_fn_params(&mut self) -> (r: Result<Vec<Token>, Diagnostic>)
        requires
            old(self).wf(),
        ensures
            final(self).wf(),
            final(self).tokens == old(self).tokens,
            old(self).current <= final(self).current,
            final(self).current == parameters(old(self).input(), old(self).current as int).pos,
            match r {
                Ok(names) => parameters(old(self).input(), old(self).current as int).value == Ok::<
                    Seq<TokenView>,
                    DiagnosticView,
                >(tokens_view(names@)) && old(self).current < final(self).current,
                Err(d) => parameters(old(self).input(), old(self).current as int).value == Err::<
                    Seq<TokenView>,
                    DiagnosticView,
                >(d@),
            },
    {
        let ghost ts = self.input();
        let before = self.peek_previous();
        let left_paren = match self.expect(
            &TokenType::LeftParen,
            "Expected '(' before function parameters",
            before,
        ) {
            Ok(t) => t,
            Err(d) => {
                return Err(d);
            },
        };
        let mut params: Vec<Token> = Vec::new();
        if self.at(&TokenType::RightParen) {
            self.next_token();
            assert(tokens_view(params@) =~= Seq::<TokenView>::empty());
            return Ok(params);
        }
        let ghost target = parameters(ts, old(self).current as int);
        let mut closed = false;
        while !closed
            invariant
                self.wf(),
                self.tokens == old(self).tokens,
                ts == self.input(),
                old(self).current < self.current,
                target == parameters(ts, old(self).current as int),
                !closed ==> parameter_list(
                    ts,
                    self.current as int,
                    left_paren.line as nat,
                    tokens_view(params@),
                ) == target,
                closed ==> target == crate::rules::ok(tokens_view(params@), self.current as int),
            decreases
                    self.tokens.len() - self.current + if closed {
                        0int
                    } else {
                        1int
                    },
        {
            let ghost before_params = tokens_view(params@);
            let name = match self.expect(
                &TokenType::Identifier,
                "Expected parameters identifiers",
                left_paren.line,
            ) {
                Ok(t) => t,
                Err(d) => {
                    return Err(d);
                },
            };
            params.push(name);
            assert(tokens_view(params@) =~= before_params.push(name@));
            if self.at(&TokenType::Comma) {
                self.next_token();
            } else {
                let line = self.peek_previous();
                match self.expect(
                    &TokenType::RightParen,
                    "Expected ')' after function parameters",
                    line,
                ) {
                    Ok(_) => {
                        closed = true;
                    },
                    Err(d) => {
                        return Err(d);
                    },
                }
            }
        }
        Ok(params)
    }

    /// `block := "{" declaration* "}"`
    fn parse_block_statement(&mut self) -> (r: Result<Statement, Diagnostic>)
        requires
            old(self).wf(),
        ensures
            final(self).agrees(old(self), r, block(old(self).input(), old(self).current as int)),
        decreases old(self).tokens.len() - old(self).current, 40int,
    {
        proof {
            reveal(Statement::model);
            reveal(FnDecl::model);
            reveal(Declaration::model);
        }
        let ghost ts = self.input();
        let before = self.peek_previous();
        let left_brace = match self.expect(
            &TokenType::LeftBrace,
            "Expected '{' at begining of block",
            before,
        ) {
            Ok(t) => t,
            Err(d) => {
                return Err(d);
            },
        };
        let line = left_brace.line;
        let mut stmts: Vec<Declaration> = Vec::new();
        assert(decls_view(stmts@) =~= Seq::<DeclView>::empty());
        while self.current < self.tokens.len() && !self.at(&TokenType::RightBrace)
            invariant
                self.wf(),
                self.tokens == old(self).tokens,
                ts == self.input(),
                old(self).current < self.current,
                block_items(ts, self.current as int, line as nat, decls_view(stmts@)) == block(
                    ts,
                    old(self).current as int,
                ),
            decreases self.tokens.len() - self.current,
        {
            let ghost before_stmts = decls_view(stmts@);
            let item = match self.parse_declaration() {
                Ok(d) => d,
                Err(e) => {
                    return Err(e);
                },
            };
            stmts.push(item);
            assert(decls_view(stmts@) =~= before_stmts.push(item@));
        }
        if self.current >= self.tokens.len() {
            return Err(Diagnostic::syntax(line, String::from_str("Unclosed block")));
        }
        // takes the closing brace

        self.next_token();
        let block = Statement::BlockStmt(stmts);
        assert(block@->BlockStmt_0 =~= decls_view(stmts@));
        Ok(block)
    }

    /// `ifStmt := "if" expression statement ("else" statement)?`
    fn parse_if_statement(&mut self) -> (r: Result<Statement, Diagnostic>)
        requires
            old(self).wf(),
            old(self).current < old(self).tokens.len(),
        ensures
            final(self).agrees(
                old(self),
                r,
                if_statement(old(self).input(), old(self).current as int),
            ),
        decreases old(self).tokens.len() - old(self).current, 41int,
    {
        proof {
            reveal(Statement::model);
        }
        let _if_token = self.next_token();
        let condition = match self.parse_expression() {
            Ok(e) => e,
            Err(d) => {
                return Err(d);
            },
        };
        let if_branch = match self.parse_statement() {
            Ok(s) => s,
            Err(d) => {
                return Err(d);
            },
        };
        let mut else_branch: Option<Box<Statement>> = None;
        if self.at(&TokenType::Else) {
            self.next_token();
            else_branch = match self.parse_statement() {
                Ok(s) => Some(Box::new(s)),
                Err(d) => {
                    return Err(d);
                },
            };
        }
        Ok(Statement::IfStmt { condition, if_branch: Box::new(if_branch), else_branch })
    }

    /// `whileStmt := "while" expression statement`
    fn parse_while_statement(&mut self) -> (r: Result<Statement, Diagnostic>)
        requires
            old(self).wf(),
            old(self).current < old(self).tokens.len(),
        ensures
            final(self).agrees(
                old(self),
                r,
                while_statement(old(self).input(), old(self).current as int),
            ),
        decreases old(self).tokens.len() - old(self).current, 41int,
    {
        proof {
            reveal(Statement::model);
        }
        let _while_token = self.next_token();
        let condition = match self.parse_expression() {
            Ok(e) => e,
            Err(d) => {
                return Err(d);
            },
        };
        match self.parse_statement() {
            Ok(body) => Ok(Statement::WhileStmt { condition, body: Box::new(body) }),
            Err(d) => Err(d),
        }
    }

    /// `"for" IDENT "in" range block`, rewritten at once: the variable is
    /// declared with the first bound, and a `while` loop runs the body and
    /// adds one to the variable as long as it is less than the last bound.
    fn parse_for_statement(&mut self) -> (r: Result<Statement, Diagnostic>)
        requires
            old(self).wf(),
            old(self).current < old(self).tokens.len(),
        ensures
            final(self).agrees(
                old(self),
                r,
                for_statement(old(self).input(), old(self).current as int),
            ),
        decreases old(self).tokens.len() - old(self).current, 41int,
    {
        let for_token = self.next_token();
        let line = for_token.line;
        let variable = match self.expect(
            &TokenType::Identifier,
            "Expected identifier after 'for' keyword",
            line,
        ) {
            Ok(t) => t,
            Err(d) => {
                return Err(d);
            },
        };
        match self.expect(
            &TokenType::In,
            "Expected 'in' keyword after identifier in for loop declaration",
            line,
        ) {
            Ok(_) => {},
            Err(d) => {
                return Err(d);
            },
        }
        let bounds = match self.parse_range() {
            Ok(e) => e,
            Err(d) => {
                return Err(d);
            },
        };
        let body = match self.parse_block_statement() {
            Ok(s) => s,
            Err(d) => {
                return Err(d);
            },
        };
        desugar_for(variable, bounds, body, line, Ghost(self.current as int))
    }

    /// `returnStmt := "return" expression? ";"`
    fn parse_return_statement(&mut self) -> (r: Result<Statement, Diagnostic>)
        requires
            old(self).wf(),
            old(self).current < old(self).tokens.len(),
        ensures
            final(self).agrees(
                old(self),
                r,
                return_statement(old(self).input(), old(self).current as int),
            ),
        decreases old(self).tokens.len() - old(self).current, 41int,
    {
        proof {
            reveal(Statement::model);
        }
        let return_token = self.next_token();
        if self.at(&TokenType::Semicolon) {
            self.next_token();
            return Ok(Statement::ReturnStmt { return_token, expr: None });
        }
        let value = match self.parse_expression() {
            Ok(e) => e,
            Err(d) => {
                return Err(d);
            },
        };
        match self.expect(&TokenType::Semicolon, "Expected ';' after return value", return_token.line) {
            Ok(_) => Ok(Statement::ReturnStmt { return_token, expr: Some(value) }),
            Err(d) => Err(d),
        }
    }

    /// `statement := block | ifStmt | whileStmt | forStmt | returnStmt | exprStmt`
    fn parse_statement(&mut self) -> (r: Result<Statement, Diagnostic>)
        requires
            old(self).wf(),
        ensures
            final(self).agrees(
                old(self),
                r,
                statement(old(self).input(), old(self).current as int),
            ),
        decreases old(self).tokens.len() - old(self).current, 42int,
    {
        if self.at(&TokenType::LeftBrace) {
            return self.parse_block_statement();
        }
        if self.at(&TokenType::If) {
            return self.parse_if_statement();
        }
        if self.at(&TokenType::While) {
            return self.parse_while_statement();
        }
        if self.at(&TokenType::For) {
            return self.parse_for_statement();
        }
        if self.at(&TokenType::Return) {
            return self.parse_return_statement();
        }
        self.parse_expression_statement()
    }

    /// `exprStmt := expression ";"`
    fn parse_expression_statement(&mut self) -> (r: Result<Statement, Diagnostic>)
        requires
            old(self).wf(),
        ensures
            final(self).agrees(
                old(self),
                r,
                expression_statement(old(self).input(), old(self).current as int),
            ),
        decreases old(self).tokens.len() - old(self).current, 41int,
    {
        proof {
            reveal(Statement::model);
        }
        let expr = match self.parse_expression() {
            Ok(e) => e,
            Err(d) => {
                return Err(d);
            },
        };
        let line = self.peek_previous();
        match self.expect(&TokenType::Semicolon, "Expected ';' after expression", line) {
            Ok(_) => Ok(Statement::ExprStmt(expr)),
            Err(d) => Err(d),
        }
    }

    /// `letDecl := "let" IDENT ("=" expression)? ";"`
    fn parse_let_declaration(&mut self) -> (r: Result<Declaration, Diagnostic>)
        requires
            old(self).wf(),
            old(self).current < old(self).tokens.len(),
        ensures
            final(self).agrees(
                old(self),
                r,
                let_declaration(old(self).input(), old(self).current as int),
            ),
        decreases old(self).tokens.len() - old(self).current, 41int,
    {
        proof {
            reveal(Declaration::model);
        }
        let let_token = self.next_token();
        let line = let_token.line;
        let ident = match self.expect(
            &TokenType::Identifier,
            "expected identifier after let declaration",
            line,
        ) {
            Ok(t) => t,
            Err(d) => {
                return Err(d);
            },
        };
        let mut init: Option<Expression> = None;
        if self.at(&TokenType::Equal) {
            self.next_token();
            init = match self.parse_expression() {
                Ok(e) => Some(e),
                Err(d) => {
                    return Err(d);
                },
            };
        }
        match self.expect(&TokenType::Semicolon, "Expected ';' after let declaration", line) {
            Ok(_) => Ok(Declaration::LetDecl { ident, init }),
            Err(d) => Err(d),
        }
    }

    /// `fnDecl := "fn" IDENT "(" params? ")" block`
    fn parse_fn_declaration(&mut self) -> (r: Result<Declaration, Diagnostic>)
        requires
            old(self).wf(),
            old(self).current < old(self).tokens.len(),
        ensures
            final(self).agrees(
                old(self),
                r,
                fn_declaration(old(self).input(), old(self).current as int),
            ),
        decreases old(self).tokens.len() - old(self).current, 41int,
    {
        proof {
            reveal(Statement::model);
            reveal(Declaration::model);
        }
        let fn_token = self.next_token();
        let ident = match self.expect(
            &TokenType::Identifier,
            "Expected function name after 'fn'",
            fn_token.line,
        ) {
            Ok(t) => t,
            Err(d) => {
                return Err(d);
            },
        };
        let params = match self.parse_fn_params() {
            Ok(names) => names,
            Err(d) => {
                return Err(d);
            },
        };
        match self.parse_block_statement() {
            Ok(body) => Ok(Declaration::FnDecl(FnDecl { ident, params, body })),
            Err(d) => Err(d),
        }
    }

    /// `declaration := letDecl | fnDecl | statement`
    fn parse_declaration(&mut self) -> (r: Result<Declaration, Diagnostic>)
        requires
            old(self).wf(),
        ensures
            final(self).agrees(
                old(self),
                r,
                declaration(old(self).input(), old(self).current as int),
            ),
        decreases old(self).tokens.len() - old(self).current, 43int,
    {
        proof {
            reveal(Statement::model);
            reveal(Declaration::model);
        }
        if self.at(&TokenType::Let) {
            return self.parse_let_declaration();
        }
        if self.at(&TokenType::Fn) {
            return self.parse_fn_declaration();
        }
        match self.parse_statement() {
            Ok(stmt) => Ok(Declaration::StmtDecl(stmt)),
            Err(d) => Err(d),
        }
    }

    /// After a failure: passes over one token, then skips tokens until the
    /// one before the cursor is a semicolon or the one at the cursor may
    /// begin a declaration.
    fn synchronize(&mut self)
        requires
            old(self).wf(),
        ensures
            final(self).wf(),
            final(self).tokens == old(self).tokens,
            final(self).current == synchronize(old(self).input(), old(self).current as int),
            old(self).current <= final(self).current,
            old(self).current < old(self).tokens.len() ==> old(self).current < final(self).current,
    {
        proof {
            reveal(skip);
        }
        let ghost ts = self.input();
        self.next_token();
        while !self.finished()
            invariant
                self.wf(),
                self.tokens == old(self).tokens,
                ts == self.input(),
                old(self).current <= self.current,
                old(self).current < old(self).tokens.len() ==> old(self).current < self.current,
                skip(ts, self.current as int) == synchronize(ts, old(self).current as int),
            decreases self.tokens.len() - self.current,
        {
            proof {
                reveal(skip);
            }
            if self.current > 0 && self.tokens[self.current - 1].ty.same_kind(
                &TokenType::Semicolon,
            ) {
                return ;
            }
            if self.at(&TokenType::Class) || self.at(&TokenType::Let) || self.at(&TokenType::Fn)
                || self.at(&TokenType::For) || self.at(&TokenType::While) || self.at(
                &TokenType::If,
            ) || self.at(&TokenType::Return) {
                return ;
            }
            self.next_token();
        }
    }

    /// Reads one declaration into `declarations`, or reports where it gave up
    /// into `errors` and skips to where the next one may begin.
    fn parse_next(&mut self, declarations: &mut Vec<Declaration>, errors: &mut Vec<Diagnostic>)
        requires
            old(self).wf(),
            old(self).current < old(self).tokens.len(),
        ensures
            final(self).wf(),
            final(self).tokens == old(self).tokens,
            old(self).current < final(self).current,
            ({
                let ts = old(self).input();
                let item = declaration(ts, old(self).current as int);
                match item.value {
                    Ok(d) => {
                        &&& final(self).current == item.pos
                        &&& decls_view(final(declarations)@) == decls_view(old(declarations)@).push(d)
                        &&& diagnostics_view(final(errors)@) == diagnostics_view(old(errors)@)
                    },
                    Err(e) => {
                        &&& old(self).current <= item.pos <= ts.len()
                        &&& final(self).current == synchronize(ts, item.pos)
                        &&& decls_view(final(declarations)@) == decls_view(old(declarations)@)
                        &&& diagnostics_view(final(errors)@) == diagnostics_view(old(errors)@).push(e)
                    },
                }
            }),
    {
        match self.parse_declaration() {
            Ok(d) => {
                declarations.push(d);
            },
            Err(e) => {
                errors.push(e);
                self.synchronize();
            },
        }
    }

    /// Parses the whole list of tokens. After a failure the parser skips to
    /// where a declaration may begin and goes on; if anything was reported,
    /// the answer is all that was reported, else all the declarations.
    pub fn parse(&mut self) -> (r: Result<Vec<Declaration>, Vec<Diagnostic>>)
        requires
            old(self).wf(),
        ensures
            final(self).wf(),
            final(self).input() == old(self).input(),
            program_view(r) == program(old(self).input()),
    {
        self.current = 0;
        let ghost ts = self.input();
        let mut declarations: Vec<Declaration> = Vec::new();
        let mut errors: Vec<Diagnostic> = Vec::new();
        let ghost whole = program_from(
            ts,
            0,
            Program { declarations: Seq::empty(), errors: Seq::empty() },
        );
        assert(decls_view(declarations@) =~= Seq::<DeclView>::empty());
        assert(diagnostics_view(errors@) =~= Seq::<DiagnosticView>::empty());
        while !self.finished()
            invariant
                self.wf(),
                self.tokens == old(self).tokens,
                ts == self.input(),
                program_from(
                    ts,
                    self.current as int,
                    Program {
                        declarations: decls_view(declarations@),
                        errors: diagnostics_view(errors@),
                    },
                ) == whole,
            decreases self.tokens.len() - self.current,
        {
            proof {
                lemma_program_step(
                    ts,
                    self.current as int,
                    Program {
                        declarations: decls_view(declarations@),
                        errors: diagnostics_view(errors@),
                    },
                );
            }
            self.parse_next(&mut declarations, &mut errors);
        }
        proof {
            lemma_program_end(
                ts,
                self.current as int,
                Program {
                    declarations: decls_view(declarations@),
                    errors: diagnostics_view(errors@),
                },
            );
        }
        if errors.len() == 0 {
            Ok(declarations)
        } else {
            Err(errors)
        }
    }
}

/// The answer of `parse` as a mathematical value.
pub open spec fn program_view(r: Result<Vec<Declaration>, Vec<Diagnostic>>) -> Result<
    Seq<DeclView>,
    Seq<DiagnosticView>,
> {
    match r {
        Ok(declarations) => Ok(decls_view(declarations@)),
        Err(errors) => Err(diagnostics_view(errors@)),
    }
}

/// Rewrites a `for` loop, once its parts are read, into the block that it
/// stands for. The bounds must be two number literals joined by `..`.
fn desugar_for(
    variable: Token,
    bounds: Expression,
    body: Statement,
    line: usize,
    Ghost(pos): Ghost<int>,
) -> (r: Result<Statement, Diagnostic>)
    ensures
        for_parts(variable@, bounds@, body@, line as nat, pos).pos == pos,
        match r {
            Ok(s) => for_parts(variable@, bounds@, body@, line as nat, pos).value == Ok::<
                StmtView,
                DiagnosticView,
            >(s@),
            Err(d) => for_parts(variable@, bounds@, body@, line as nat, pos).value == Err::<
                StmtView,
                DiagnosticView,
            >(d@),
        },
{
    proof {
        reveal(for_parts);
        reveal_with_fuel(Expression::model, 3);
        reveal(Statement::model);
        reveal(Declaration::model);
    }
    // the two bounds of the range

    let (first, last) = match bounds {
        Expression::Range { left, right } => match (*left, *right) {
            (
                Expression::Literal(Literal::Number(first)),
                Expression::Literal(Literal::Number(last)),
            ) => (first, last),
            _ => {
                return Err(
                    Diagnostic::syntax(
                        line,
                        String::from_str("Expected range operands to evaluate to a number"),
                    ),
                );
            },
        },
        _ => {
            return Err(
                Diagnostic::syntax(
                    line,
                    String::from_str("Expected range expression (a..b) in for loop declaration"),
                ),
            );
        },
    };
    let mut block = match body {
        Statement::BlockStmt(decls) => decls,
        _ => {
            return Err(
                Diagnostic::syntax(
                    line,
                    String::from_str("Expected block after for loop declaration"),
                ),
            );
        },
    };
    let ghost body_view = decls_view(block@);
    let ghost first_view = first@;
    let ghost last_view = last@;
    assert(body@->BlockStmt_0 =~= body_view);
    // let variable = first;

    let var_decl = Declaration::LetDecl {
        ident: variable.clone(),
        init: Some(Expression::Literal(Literal::Number(first))),
    };
    // variable < last

    let condition = Expression::Binary {
        left: Box::new(Expression::Var(variable.clone())),
        operator: Token::new(String::from_str("<"), TokenType::Less, line),
        right: Box::new(Expression::Literal(Literal::Number(last))),
    };
    // variable = variable + 1;

    let increment = Expression::Binary {
        left: Box::new(Expression::Var(variable.clone())),
        operator: Token::new(String::from_str("+"), TokenType::Plus, line),
        right: Box::new(Expression::Literal(Literal::Number(String::from_str("1")))),
    };
    let assign = Expression::Assignment { ident: variable.clone(), expr: Box::new(increment) };
    let ghost assign_view = assign@;
    let iteration = Statement::ExprStmt(assign);
    let ghost iteration_view = iteration@;
    let step = Declaration::StmtDecl(iteration);
    let ghost step_view = step@;
    block.push(step);
    assert(decls_view(block@) =~= body_view.push(step_view));
    let while_body = Statement::BlockStmt(block);
    assert(while_body@->BlockStmt_0 =~= decls_view(block@));
    let ghost while_body_view = while_body@;
    let ghost condition_view = condition@;
    let repeat = Statement::WhileStmt { condition, body: Box::new(while_body) };
    let ghost repeat_view = repeat@;
    let while_stmt = Declaration::StmtDecl(repeat);
    let ghost while_view = while_stmt@;
    let ghost var_view = var_decl@;
    let mut outer: Vec<Declaration> = Vec::new();
    outer.push(var_decl);
    outer.push(while_stmt);
    let whole = Statement::BlockStmt(outer);
    assert(whole@->BlockStmt_0 =~= seq![var_view, while_view]);
    Ok(whole)
}

} // verus!
