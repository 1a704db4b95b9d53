//! The evaluator: it walks the syntax tree and changes environments.
//!
//! Every function here is proved to compute what `semantics` says. The
//! answers of the host are recorded as they are given; a contract speaks of
//! every sequence of answers that begins with those that were given.

use crate::env::{Environments, Scope, home, keeps, lemma_keeps_bind};
use crate::error::{Diagnostic, Return};
use crate::grammar::{Declaration, Expression, FnDecl, Literal, Statement, decls_view, exprs_view};
use crate::number::{Answer, Number, Numerics, Question, QuestionView, Reply, ask};
use crate::runtime::{
    Callable, CallableView, Function, Object, ObjectView, Println, binary_result, callable_arity,
    failure, objects_view, unary_result,
};
use crate::scoping::{kept, lemma_home_binds, sound};
use crate::semantics::{
    Machine, SignalView, Step, apply_binary, asked, binary_question, assign, bind_parameters, call,
    call_function, declare, declare_function, declare_variable, done, eval, eval_arguments,
    eval_assignment, eval_binary, eval_call, eval_literal, eval_logical, eval_logical_right,
    eval_unary, exec, exec_block, exec_declarations, exec_if, exec_return, exec_while, failed,
    next_number, next_text, print, run,
};
use crate::text::decimal_string;
use crate::token::{Token, TokenType};
use vstd::prelude::*;

verus! {

/// What ends the execution of a statement before its end: a failure, or a
/// `return`, which is no failure and ends the call of the function around
/// it. `line` is the line of the `return`.
#[derive(Debug)]
pub enum Signal {
    Failure(Diagnostic),
    Return { result: Return, line: usize },
}

impl View for Signal {
    type V = SignalView;

    open spec fn view(&self) -> SignalView {
        match self {
            Signal::Failure(d) => SignalView::Failure(d@),
            Signal::Return { result, line } => SignalView::Return {
                value: match result.value {
                    Some(v) => Some(v@),
                    None => None,
                },
                line: *line as nat,
            },
        }
    }
}

/// The outcome of an evaluation as a mathematical value.
pub open spec fn evaluated(r: Result<Object, Diagnostic>) -> Result<ObjectView, SignalView> {
    match r {
        Ok(v) => Ok(v@),
        Err(d) => Err(SignalView::Failure(d@)),
    }
}

/// The outcome of an execution as a mathematical value.
pub open spec fn executed(r: Result<(), Signal>) -> Result<(), SignalView> {
    match r {
        Ok(_) => Ok(()),
        Err(s) => Err(s@),
    }
}

/// The outcome of a run as a mathematical value.
pub open spec fn reported(r: Result<(), Diagnostic>) -> Result<(), SignalView> {
    match r {
        Ok(_) => Ok(()),
        Err(d) => Err(SignalView::Failure(d@)),
    }
}

/// Whether `all` begins with the answers `given`.
pub open spec fn extends(given: Seq<Answer>, all: Seq<Answer>) -> bool {
    &&& given.len() <= all.len()
    &&& forall|i: int| 0 <= i < given.len() ==> #[trigger] all[i] == given[i]
}

/// What begins with what begins with `a` begins with `a`.
pub proof fn lemma_extends_transitive(a: Seq<Answer>, b: Seq<Answer>, c: Seq<Answer>)
    requires
        extends(a, b),
        extends(b, c),
    ensures
        extends(a, c),
{
    assert forall|i: int| 0 <= i < a.len() implies #[trigger] c[i] == a[i] by {}
}

/// The state in which every run begins: the global environment binds
/// `println` and nothing else, code runs in it, nothing is printed, and the
/// host was asked nothing.
pub open spec fn initial() -> Machine {
    Machine {
        scopes: seq![
            Scope {
                bindings: Map::<Seq<char>, ObjectView>::empty().insert(
                    "println"@,
                    ObjectView::Callable(CallableView::Println),
                ),
                enclosing: None,
            },
        ],
        global: 0,
        current: 0,
        printed: Seq::empty(),
        asked: Seq::empty(),
    }
}

/// The diagnostic of an evaluation that has used up its depth.
fn too_deep() -> (d: Diagnostic)
    ensures
        d@ == failure(0, "Evaluation limit reached"@),
{
    Diagnostic::runtime(0, String::from_str("Evaluation limit reached"))
}

/// What the host is asked for a binary operator between two values, if
/// anything.
fn question(operator: &Token, a: &Object, b: &Object) -> (r: Option<Question>)
    ensures
        match r {
            Some(q) => binary_question(operator@, a@, b@) == Some(q@),
            None => binary_question(operator@, a@, b@) is None,
        },
{
    match (a, b) {
        (Object::Number(x), Object::Number(y)) => {
            if operator.ty.same_kind(&TokenType::Plus) {
                Some(Question::Add(*x, *y))
            } else if operator.ty.same_kind(&TokenType::Minus) {
                Some(Question::Subtract(*x, *y))
            } else if operator.ty.same_kind(&TokenType::Star) {
                Some(Question::Multiply(*x, *y))
            } else if operator.ty.same_kind(&TokenType::Slash) && !y.zero() {
                Some(Question::Divide(*x, *y))
            } else {
                None
            }
        },
        _ => None,
    }
}

/// The interpreter: the environments of the run, the environment in which
/// code runs at the moment, what the program has printed, how deep
/// evaluation may go, and the answers that the host has given.
pub struct Interpreter {
    pub global: usize,
    pub current: usize,
    environments: Environments,
    output: Vec<String>,
    limit: u64,
    asked: Ghost<Seq<QuestionView>>,
    answers: Ghost<Seq<Answer>>,
}

impl View for Interpreter {
    type V = Machine;

    closed spec fn view(&self) -> Machine {
        Machine {
            scopes: self.environments@,
            global: self.global as nat,
            current: self.current as nat,
            printed: Seq::new(self.output@.len(), |i: int| self.output@[i]@),
            asked: self.asked@,
        }
    }
}

impl Interpreter {
    /// The answers that the host has given, in order.
    pub closed spec fn answers(&self) -> Seq<Answer> {
        self.answers@
    }

    /// How deep evaluation may go.
    pub closed spec fn limit(&self) -> nat {
        self.limit as nat
    }

    /// The state is sound, and the host has answered every question that it
    /// was asked.
    pub open spec fn wf(&self) -> bool {
        sound(self@) && self@.asked.len() == self.answers().len()
    }

    /// What holds of the interpreter after it has run code from the state
    /// `before`: see `kept`. The host has given the answers that it had
    /// given, and maybe more.
    pub open spec fn follows(&self, before: &Interpreter, open: Option<int>) -> bool {
        &&& self.wf()
        &&& kept(before@, self@, open)
        &&& extends(before.answers(), self.answers())
        &&& self.limit() == before.limit()
    }

    /// An interpreter whose evaluation may go `depth` deep. Its global
    /// environment binds `println`; nothing is printed yet, and the host was
    /// asked nothing.
    pub fn limited(depth: u64) -> (r: Self)
        ensures
            r.wf(),
            r.limit() == depth,
            r.answers() == Seq::<Answer>::empty(),
            r@ == initial(),
    {
        let mut environments = Environments::new();
        environments.define_callable(0, String::from_str("println"), Callable::Println(Println {  }));
        let r = Self {
            global: 0,
            current: 0,
            environments,
            output: Vec::new(),
            limit: depth,
            asked: Ghost(Seq::empty()),
            answers: Ghost(Seq::empty()),
        };
        assert(r@.scopes =~= seq![
            Scope {
                bindings: Map::<Seq<char>, ObjectView>::empty().insert(
                    "println"@,
                    ObjectView::Callable(CallableView::Println),
                ),
                enclosing: None,
            },
        ]);
        assert(r@.printed =~= Seq::<Seq<char>>::empty());
        r
    }

    /// An interpreter whose evaluation may go as deep as can be counted.
    pub fn new() -> (r: Self)
        ensures
            r.wf(),
            r.limit() == u64::MAX,
            r.answers() == Seq::<Answer>::empty(),
            r@ == initial(),
    {
        Self::limited(u64::MAX)
    }

    /// What the program has printed so far, line by line.
    pub fn output(&self) -> (r: &Vec<String>)
        ensures
            Seq::new(r@.len(), |i: int| r@[i]@) == self@.printed,
    {
        &self.output
    }

    /// Asks the host, and keeps the question and the answer in mind.
    fn ask<H: Numerics>(&mut self, question: Question, host: &H) -> (r: Reply)
        requires
            old(self).wf(),
        ensures
            final(self).wf(),
            final(self)@ == asked(old(self)@, question@),
            final(self).answers() == old(self).answers().push(r@),
            final(self).limit() == old(self).limit(),
            final(self).follows(old(self), None),
            r is Text <==> question@ is Show,
    {
        let reply = ask(&question, host);
        self.asked = Ghost(self.asked@.push(question@));
        self.answers = Ghost(self.answers@.push(reply@));
        reply
    }

    /// Asks the host a question that a number answers.
    fn ask_number<H: Numerics>(&mut self, question: Question, host: &H) -> (n: Number)
        requires
            old(self).wf(),
            !(question@ is Show),
        ensures
            final(self).wf(),
            final(self)@ == asked(old(self)@, question@),
            final(self).limit() == old(self).limit(),
            final(self).follows(old(self), None),
            forall|answers: Seq<Answer>| #[trigger]
                extends(final(self).answers(), answers) ==> next_number(old(self)@, answers) == n,
    {
        let reply = self.ask(question, host);
        let n = match reply {
            Reply::Number(n) => n,
            Reply::Text(_) => Number::from_bits(0),
        };
        proof {
            assert forall|answers: Seq<Answer>| #[trigger]
                extends(self.answers(), answers) implies next_number(old(self)@, answers) == n by {}
        }
        n
    }

    /// Runs a program: its declarations, one after the other, in the current
    /// environment. The first failure ends the run. A `return` outside of
    /// every function is a failure.
    ///
    /// The answer and the state that the run leaves are what `run` makes of
    /// the program, the state before and the answers that the host gave
    /// during the run: of every sequence of answers that begins with them.
    pub fn interpret<H: Numerics>(&mut self, ast: Vec<Declaration>, host: &H) -> (r: Result<
        (),
        Diagnostic,
    >)
        requires
            old(self).wf(),
        ensures
            final(self).follows(old(self), Some(old(self)@.current as int)),
            forall|answers: Seq<Answer>| #[trigger]
                extends(final(self).answers(), answers) ==> run(
                    old(self)@,
                    decls_view(ast@),
                    old(self).limit(),
                    answers,
                ) == (Step { value: reported(r), after: final(self)@ }),
    {
        let depth = self.limit;
        match self.exec_declarations(&ast, depth, host) {
            Ok(_) => Ok(()),
            Err(Signal::Failure(d)) => Err(d),
            Err(Signal::Return { result, line }) => Err(
                Diagnostic::runtime(line, String::from_str("return outside function")),
            ),
        }
    }

    /// Executes declarations one after the other, in the current
    /// environment, up to the first that does not end well.
    fn exec_declarations<H: Numerics>(&mut self, block: &Vec<Declaration>, depth: u64, host: &H) -> (r:
        Result<(), Signal>)
        requires
            old(self).wf(),
        ensures
            final(self).follows(old(self), Some(old(self)@.current as int)),
            forall|answers: Seq<Answer>| #[trigger]
                extends(final(self).answers(), answers) ==> exec_declarations(
                    old(self)@,
                    decls_view(block@),
                    0,
                    depth as nat,
                    answers,
                ) == (Step { value: executed(r), after: final(self)@ }),
        decreases depth, 1int, block@.len(),
    {
        let ghost items = decls_view(block@);
        let ghost open = Some(old(self)@.current as int);
        let mut i: usize = 0;
        while i < block.len()
            invariant
                i <= block.len(),
                items == decls_view(block@),
                open == Some(old(self)@.current as int),
                self.follows(old(self), open),
                forall|answers: Seq<Answer>| #[trigger]
                    extends(self.answers(), answers) ==> exec_declarations(
                        old(self)@,
                        items,
                        0,
                        depth as nat,
                        answers,
                    ) == exec_declarations(self@, items, i as int, depth as nat, answers),
            decreases block.len() - i,
        {
            let ghost before = *self;
            let r = self.register_declaration(&block[i], depth, host);
            proof {
                assert forall|answers: Seq<Answer>| #[trigger]
                    extends(self.answers(), answers) implies exec_declarations(
                    old(self)@,
                    items,
                    0,
                    depth as nat,
                    answers,
                ) == (match executed(r) {
                    Ok(_) => exec_declarations(self@, items, i + 1, depth as nat, answers),
                    Err(_) => Step { value: executed(r), after: self@ },
                }) by {
                    lemma_extends_transitive(before.answers(), self.answers(), answers);
                }
            }
            match r {
                Ok(_) => {},
                Err(s) => {
                    return Err(s);
                },
            }
            i = i + 1;
        }
        Ok(())
    }

    /// Executes a declaration: a statement is executed, a name is bound in
    /// the current environment.
    fn register_declaration<H: Numerics>(&mut self, decl: &Declaration, depth: u64, host: &H) -> (r:
        Result<(), Signal>)
        requires
            old(self).wf(),
        ensures
            final(self).follows(old(self), Some(old(self)@.current as int)),
            forall|answers: Seq<Answer>| #[trigger]
                extends(final(self).answers(), answers) ==> declare(
                    old(self)@,
                    decl@,
                    depth as nat,
                    answers,
                ) == (Step { value: executed(r), after: final(self)@ }),
        decreases depth, 0int, 0int,
    {
        proof {
            reveal(Declaration::model);
            reveal(Statement::model);
            reveal(FnDecl::model);
        }
        if depth == 0 {
            return Err(Signal::Failure(too_deep()));
        }
        let d = depth - 1;
        match decl {
            Declaration::StmtDecl(stmt) => {
                self.exec_statement(stmt, d, host)
            },
            Declaration::LetDecl { ident, init } => self.register_let_declaration(
                ident,
                init,
                d,
                host,
            ),
            Declaration::FnDecl(fn_decl) => {
                self.register_function_declaration(fn_decl);
                Ok(())
            },
        }
    }

    /// Binds the name of a function, in the current environment, to the
    /// function. The function keeps the current environment: its body will
    /// see the names that are in scope here.
    fn register_function_declaration(&mut self, fn_decl: &FnDecl)
        requires
            old(self).wf(),
        ensures
            final(self).follows(old(self), Some(old(self)@.current as int)),
            final(self).answers() == old(self).answers(),
            declare_function(old(self)@, fn_decl@) == done(final(self)@, ()),
    {
        proof {
            reveal(FnDecl::model);
        }
        let function = Function { declaration: fn_decl.clone(), closure: self.current };
        self.environments.define_callable(
            self.current,
            fn_decl.ident.lexeme.clone(),
            Callable::Function(function),
        );
    }

    /// Binds a name, in the current environment, to the value of its
    /// initializer, or to `null` where it has none.
    fn register_let_declaration<H: Numerics>(
        &mut self,
        ident: &Token,
        init: &Option<Expression>,
        depth: u64,
        host: &H,
    ) -> (r: Result<(), Signal>)
        requires
            old(self).wf(),
        ensures
            final(self).follows(old(self), Some(old(self)@.current as int)),
            forall|answers: Seq<Answer>| #[trigger]
                extends(final(self).answers(), answers) ==> declare_variable(
                    old(self)@,
                    ident@,
                    match init {
                        Some(e) => Some(e@),
                        None => None,
                    },
                    depth as nat,
                    answers,
                ) == (Step { value: executed(r), after: final(self)@ }),
        decreases depth, 1int, 0int,
    {
        let value = match init {
            Some(i) => match self.eval_expression(i, depth, host) {
                Ok(v) => v,
                Err(d) => {
                    return Err(Signal::Failure(d));
                },
            },
            None => Object::Null,
        };
        self.environments.define(self.current, ident.lexeme.clone(), value);
        Ok(())
    }

    /// Executes a statement.
    fn exec_statement<H: Numerics>(&mut self, stmt: &Statement, depth: u64, host: &H) -> (r: Result<
        (),
        Signal,
    >)
        requires
            old(self).wf(),
        ensures
            final(self).follows(old(self), None),
            forall|answers: Seq<Answer>| #[trigger]
                extends(final(self).answers(), answers) ==> exec(
                    old(self)@,
                    stmt@,
                    depth as nat,
                    answers,
                ) == (Step { value: executed(r), after: final(self)@ }),
        decreases depth, 0int, 0int,
    {
        proof {
            reveal(Declaration::model);
            reveal(Statement::model);
        }
        if depth == 0 {
            return Err(Signal::Failure(too_deep()));
        }
        let d = depth - 1;
        match stmt {
            Statement::ExprStmt(expr) => self.exec_expression_statement(expr, d, host),
            Statement::BlockStmt(block) => {
                let env = self.environments.push(self.current);
                proof {
                    assert(stmt@->BlockStmt_0 =~= decls_view(block@));
                }
                self.exec_block(block, env, d, host)
            },
            Statement::IfStmt { condition, if_branch, else_branch } => self.exec_if_statement(
                condition,
                if_branch,
                else_branch,
                d,
                host,
            ),
            Statement::WhileStmt { condition, body } => self.exec_while_statement(
                condition,
                body,
                d,
                host,
            ),
            Statement::ReturnStmt { return_token, expr } => self.exec_return_statement(
                return_token,
                expr,
                d,
                host,
            ),
        }
    }

    /// Evaluates the value of a `return`, `null` where it names none, and
    /// signals the return.
    fn exec_return_statement<H: Numerics>(
        &mut self,
        return_token: &Token,
        expr: &Option<Expression>,
        depth: u64,
        host: &H,
    ) -> (r: Result<(), Signal>)
        requires
            old(self).wf(),
        ensures
            final(self).follows(old(self), None),
            forall|answers: Seq<Answer>| #[trigger]
                extends(final(self).answers(), answers) ==> exec_return(
                    old(self)@,
                    return_token@,
                    match expr {
                        Some(e) => Some(e@),
                        None => None,
                    },
                    depth as nat,
                    answers,
                ) == (Step { value: executed(r), after: final(self)@ }),
        decreases depth, 1int, 0int,
    {
        let mut value: Option<Object> = None;
        if let Some(e) = expr {
            value = match self.eval_expression(e, depth, host) {
                Ok(v) => Some(v),
                Err(d) => {
                    return Err(Signal::Failure(d));
                },
            };
        }
        Err(Signal::Return { result: Return::new(value), line: return_token.line })
    }

    /// Executes the body as long as the condition is true.
    fn exec_while_statement<H: Numerics>(
        &mut self,
        condition: &Expression,
        body: &Statement,
        depth: u64,
        host: &H,
    ) -> (r: Result<(), Signal>)
        requires
            old(self).wf(),
        ensures
            final(self).follows(old(self), None),
            forall|answers: Seq<Answer>| #[trigger]
                extends(final(self).answers(), answers) ==> exec_while(
                    old(self)@,
                    condition@,
                    body@,
                    depth as nat,
                    answers,
                ) == (Step { value: executed(r), after: final(self)@ }),
        decreases depth, 1int, 0int,
    {
        let mut left = depth;
        loop
            invariant
                left <= depth,
                self.follows(old(self), None),
                forall|answers: Seq<Answer>| #[trigger]
                    extends(self.answers(), answers) ==> exec_while(
                        old(self)@,
                        condition@,
                        body@,
                        depth as nat,
                        answers,
                    ) == exec_while(self@, condition@, body@, left as nat, answers),
            decreases left,
        {
            if left == 0 {
                return Err(Signal::Failure(too_deep()));
            }
            left = left - 1;
            let ghost before = *self;
            let tested = self.eval_expression(condition, left, host);
            proof {
                assert forall|answers: Seq<Answer>| #[trigger]
                    extends(self.answers(), answers) implies exec_while(
                    old(self)@,
                    condition@,
                    body@,
                    depth as nat,
                    answers,
                ) == exec_while(before@, condition@, body@, (left + 1) as nat, answers) by {
                    lemma_extends_transitive(before.answers(), self.answers(), answers);
                }
            }
            let go = match tested {
                Ok(v) => v.thrutiness(),
                Err(d) => {
                    return Err(Signal::Failure(d));
                },
            };
            if !go {
                return Ok(());
            }
            let ghost checked = *self;
            let round = self.exec_statement(body, left, host);
            proof {
                assert forall|answers: Seq<Answer>| #[trigger]
                    extends(self.answers(), answers) implies exec_while(
                    old(self)@,
                    condition@,
                    body@,
                    depth as nat,
                    answers,
                ) == (match executed(round) {
                    Ok(_) => exec_while(self@, condition@, body@, left as nat, answers),
                    Err(_) => Step { value: executed(round), after: self@ },
                }) by {
                    lemma_extends_transitive(checked.answers(), self.answers(), answers);
                }
            }
            match round {
                Ok(_) => {},
                Err(s) => {
                    return Err(s);
                },
            }
        }
    }

    /// Executes the first branch where the condition is true, else the
    /// second, if there is one.
    fn exec_if_statement<H: Numerics>(
        &mut self,
        condition: &Expression,
        if_branch: &Statement,
        else_branch: &Option<Box<Statement>>,
        depth: u64,
        host: &H,
    ) -> (r: Result<(), Signal>)
        requires
            old(self).wf(),
        ensures
            final(self).follows(old(self), None),
            forall|answers: Seq<Answer>| #[trigger]
                extends(final(self).answers(), answers) ==> exec_if(
                    old(self)@,
                    condition@,
                    if_branch@,
                    match else_branch {
                        Some(branch) => Some(Box::new(branch@)),
                        None => None,
                    },
                    depth as nat,
                    answers,
                ) == (Step { value: executed(r), after: final(self)@ }),
        decreases depth, 1int, 0int,
    {
        let value = match self.eval_expression(condition, depth, host) {
            Ok(v) => v,
            Err(d) => {
                return Err(Signal::Failure(d));
            },
        };
        let ghost tested = *self;
        let r = if value.thrutiness() {
            self.exec_statement(if_branch, depth, host)
        } else {
            match else_branch {
                Some(branch) => self.exec_statement(branch, depth, host),
                None => Ok(()),
            }
        };
        proof {
            assert forall|answers: Seq<Answer>| #[trigger]
                extends(self.answers(), answers) implies exec_if(
                old(self)@,
                condition@,
                if_branch@,
                match else_branch {
                    Some(branch) => Some(Box::new(branch@)),
                    None => None,
                },
                depth as nat,
                answers,
            ) == (Step { value: executed(r), after: self@ }) by {
                lemma_extends_transitive(tested.answers(), self.answers(), answers);
            }
        }
        r
    }

    /// Executes the declarations of a block in the environment `new_env`, and
    /// goes back to the environment that was current, whether or not the
    /// block fails. The outcome is what `exec_block` makes of the answers
    /// that the host gave.
    pub fn exec_block_statement<H: Numerics>(
        &mut self,
        block: &Vec<Declaration>,
        new_env: usize,
        host: &H,
    ) -> (r: Result<(), Signal>)
        requires
            old(self).wf(),
            new_env < old(self)@.scopes.len(),
        ensures
            final(self).follows(old(self), Some(new_env as int)),
            forall|answers: Seq<Answer>| #[trigger]
                extends(final(self).answers(), answers) ==> exec_block(
                    old(self)@,
                    decls_view(block@),
                    new_env as nat,
                    old(self).limit(),
                    answers,
                ) == (Step { value: executed(r), after: final(self)@ }),
    {
        let depth = self.limit;
        self.exec_block(block, new_env, depth, host)
    }

    /// Executes the declarations of a block in the environment `new_env`, and
    /// goes back to the environment that was current.
    fn exec_block<H: Numerics>(
        &mut self,
        block: &Vec<Declaration>,
        new_env: usize,
        depth: u64,
        host: &H,
    ) -> (r: Result<(), Signal>)
        requires
            old(self).wf(),
            new_env < old(self)@.scopes.len(),
        ensures
            final(self).follows(old(self), Some(new_env as int)),
            forall|answers: Seq<Answer>| #[trigger]
                extends(final(self).answers(), answers) ==> exec_block(
                    old(self)@,
                    decls_view(block@),
                    new_env as nat,
                    depth as nat,
                    answers,
                ) == (Step { value: executed(r), after: final(self)@ }),
        decreases depth, 1int, block@.len() + 1,
    {
        let previous = self.current;
        self.current = new_env;
        let r = self.exec_declarations(block, depth, host);
        self.current = previous;
        r
    }

    /// Evaluates an expression and lets its value go.
    fn exec_expression_statement<H: Numerics>(&mut self, expr: &Expression, depth: u64, host: &H) -> (r:
        Result<(), Signal>)
        requires
            old(self).wf(),
        ensures
            final(self).follows(old(self), None),
            forall|answers: Seq<Answer>| #[trigger]
                extends(final(self).answers(), answers) ==> eval(
                    old(self)@,
                    expr@,
                    depth as nat,
                    answers,
                ) == (Step {
                    value: match r {
                        Ok(_) => eval(old(self)@, expr@, depth as nat, answers).value,
                        Err(s) => Err(s@),
                    },
                    after: final(self)@,
                }),
            forall|answers: Seq<Answer>| #[trigger]
                extends(final(self).answers(), answers) ==> (r is Ok <==> eval(
                    old(self)@,
                    expr@,
                    depth as nat,
                    answers,
                ).value is Ok),
        decreases depth, 1int, 0int,
    {
        match self.eval_expression(expr, depth, host) {
            Ok(_) => Ok(()),
            Err(d) => Err(Signal::Failure(d)),
        }
    }

    /// Evaluates an expression.
    fn eval_expression<H: Numerics>(&mut self, expr: &Expression, depth: u64, host: &H) -> (r: Result<
        Object,
        Diagnostic,
    >)
        requires
            old(self).wf(),
        ensures
            final(self).follows(old(self), None),
            forall|answers: Seq<Answer>| #[trigger]
                extends(final(self).answers(), answers) ==> eval(
                    old(self)@,
                    expr@,
                    depth as nat,
                    answers,
                ) == (Step { value: evaluated(r), after: final(self)@ }),
        decreases depth, 0int, 0int,
    {
        proof {
            reveal(Expression::model);
        }
        if depth == 0 {
            return Err(too_deep());
        }
        let d = depth - 1;
        match expr {
            Expression::Literal(literal) => Ok(self.eval_literal(literal, host)),
            Expression::Var(token) => self.environments.get(self.current, token),
            Expression::Call { callee, paren_token, args } => {
                proof {
                    assert(expr@->Call_args =~= exprs_view(args@));
                }
                self.eval_call(callee, paren_token, args, d, host)
            },
            Expression::Unary { operator, expr } => self.eval_unary(operator, expr, d, host),
            Expression::Binary { left, operator, right } => self.eval_binary(
                left,
                operator,
                right,
                d,
                host,
            ),
            Expression::Logical { left, operator, right } => self.eval_logical(
                left,
                operator,
                right,
                d,
                host,
            ),
            Expression::Range { left, right } => self.eval_range(left, right),
            Expression::Grouping(expression) => self.eval_expression(expression, d, host),
            Expression::Assignment { ident, expr } => self.eval_assignment(ident, expr, d, host),
        }
    }

    /// The value of a literal. The host is asked what number a number
    /// literal denotes.
    fn eval_literal<H: Numerics>(&mut self, literal: &Literal, host: &H) -> (r: Object)
        requires
            old(self).wf(),
        ensures
            final(self).follows(old(self), None),
            forall|answers: Seq<Answer>| #[trigger]
                extends(final(self).answers(), answers) ==> eval_literal(
                    old(self)@,
                    literal@,
                    answers,
                ) == done(final(self)@, r@),
    {
        match literal {
            Literal::Boolean(b) => Object::Boolean(*b),
            Literal::Number(text) => Object::Number(
                self.ask_number(Question::Number(text.clone()), host),
            ),
            Literal::Str(s) => Object::Str(s.clone()),
            Literal::Null => Object::Null,
        }
    }

    /// Evaluates the right side and gives its value to the name on the left
    /// side, in the environment that binds the name for the code that runs.
    /// The value of the assignment is the value assigned.
    fn eval_assignment<H: Numerics>(
        &mut self,
        ident: &Token,
        expr: &Expression,
        depth: u64,
        host: &H,
    ) -> (r: Result<Object, Diagnostic>)
        requires
            old(self).wf(),
        ensures
            final(self).follows(old(self), None),
            forall|answers: Seq<Answer>| #[trigger]
                extends(final(self).answers(), answers) ==> eval_assignment(
                    old(self)@,
                    ident@,
                    expr@,
                    depth as nat,
                    answers,
                ) == (Step { value: evaluated(r), after: final(self)@ }),
        decreases depth, 1int, 0int,
    {
        let value = match self.eval_expression(expr, depth, host) {
            Ok(v) => v,
            Err(d) => {
                return Err(d);
            },
        };
        proof {
            match home(self@.scopes, self.current as int, ident@.lexeme) {
                Some(h) => {
                    lemma_home_binds(self@.scopes, self.current as int, ident@.lexeme);
                    lemma_keeps_bind(self@.scopes, h, ident@.lexeme, value@);
                },
                None => {},
            }
        }
        match self.environments.assign(self.current, ident.lexeme.as_str(), value.clone()) {
            Ok(_) => Ok(value),
            Err(message) => Err(Diagnostic::runtime(ident.line, message)),
        }
    }

    /// A range has no value of its own: it is what a `for` loop runs over,
    /// and the parser rewrites those loops.
    fn eval_range(&mut self, _left: &Expression, _right: &Expression) -> (r: Result<
        Object,
        Diagnostic,
    >)
        ensures
            *final(self) == *old(self),
            r matches Err(d) && d@ == failure(0, "A range can only be used in a for loop"@),
    {
        Err(Diagnostic::runtime(0, String::from_str("A range can only be used in a for loop")))
    }

    /// Evaluates `left and right` or `left or right`: the left operand
    /// first, and the right one only where the left one does not settle the
    /// value.
    fn eval_logical<H: Numerics>(
        &mut self,
        left: &Expression,
        operator: &Token,
        right: &Expression,
        depth: u64,
        host: &H,
    ) -> (r: Result<Object, Diagnostic>)
        requires
            old(self).wf(),
        ensures
            final(self).follows(old(self), None),
            forall|answers: Seq<Answer>| #[trigger]
                extends(final(self).answers(), answers) ==> eval_logical(
                    old(self)@,
                    left@,
                    operator@,
                    right@,
                    depth as nat,
                    answers,
                ) == (Step { value: evaluated(r), after: final(self)@ }),
        decreases depth, 2int, 0int,
    {
        let value = match self.eval_expression(left, depth, host) {
            Ok(v) => v,
            Err(d) => {
                return Err(d);
            },
        };
        let ghost evaluated_left = *self;
        let r = self.eval_logical_right(value, operator, right, depth, host);
        proof {
            assert forall|answers: Seq<Answer>| #[trigger]
                extends(self.answers(), answers) implies eval_logical(
                old(self)@,
                left@,
                operator@,
                right@,
                depth as nat,
                answers,
            ) == (Step { value: evaluated(r), after: self@ }) by {
                lemma_extends_transitive(evaluated_left.answers(), self.answers(), answers);
            }
        }
        r
    }

    /// Goes on after the left operand of `and` or `or` has the value
    /// `left`. Where that settles the value of the whole, it is the value,
    /// and the right operand is not evaluated: nothing changes. Else the
    /// value is that of the right operand.
    fn eval_logical_right<H: Numerics>(
        &mut self,
        left: Object,
        operator: &Token,
        right: &Expression,
        depth: u64,
        host: &H,
    ) -> (r: Result<Object, Diagnostic>)
        requires
            old(self).wf(),
        ensures
            final(self).follows(old(self), None),
            forall|answers: Seq<Answer>| #[trigger]
                extends(final(self).answers(), answers) ==> eval_logical_right(
                    old(self)@,
                    left@,
                    operator@,
                    right@,
                    depth as nat,
                    answers,
                ) == (Step { value: evaluated(r), after: final(self)@ }),
        decreases depth, 1int, 0int,
    {
        if operator.ty.same_kind(&TokenType::Or) {
            if left.thrutiness() {
                return Ok(left);
            }
        } else {
            if !left.thrutiness() {
                return Ok(left);
            }
        }
        self.eval_expression(right, depth, host)
    }

    /// Evaluates both operands, the left one first, and applies the
    /// operator.
    fn eval_binary<H: Numerics>(
        &mut self,
        left: &Expression,
        operator: &Token,
        right: &Expression,
        depth: u64,
        host: &H,
    ) -> (r: Result<Object, Diagnostic>)
        requires
            old(self).wf(),
        ensures
            final(self).follows(old(self), None),
            forall|answers: Seq<Answer>| #[trigger]
                extends(final(self).answers(), answers) ==> eval_binary(
                    old(self)@,
                    left@,
                    operator@,
                    right@,
                    depth as nat,
                    answers,
                ) == (Step { value: evaluated(r), after: final(self)@ }),
        decreases depth, 1int, 0int,
    {
        let a = match self.eval_expression(left, depth, host) {
            Ok(v) => v,
            Err(d) => {
                return Err(d);
            },
        };
        let ghost first = *self;
        let b = match self.eval_expression(right, depth, host) {
            Ok(v) => v,
            Err(d) => {
                proof {
                    assert forall|answers: Seq<Answer>| #[trigger]
                        extends(self.answers(), answers) implies eval_binary(
                        old(self)@,
                        left@,
                        operator@,
                        right@,
                        depth as nat,
                        answers,
                    ) == (Step { value: evaluated(Err(d)), after: self@ }) by {
                        lemma_extends_transitive(first.answers(), self.answers(), answers);
                    }
                }
                return Err(d);
            },
        };
        let ghost second = *self;
        let r = self.apply_binary(operator, a, b, host);
        proof {
            assert forall|answers: Seq<Answer>| #[trigger]
                extends(self.answers(), answers) implies eval_binary(
                old(self)@,
                left@,
                operator@,
                right@,
                depth as nat,
                answers,
            ) == (Step { value: evaluated(r), after: self@ }) by {
                lemma_extends_transitive(first.answers(), second.answers(), answers);
            }
        }
        r
    }

    /// Applies a binary operator to two values. The host is asked for the
    /// result of arithmetic on two numbers; everything else is decided here.
    fn apply_binary<H: Numerics>(&mut self, operator: &Token, a: Object, b: Object, host: &H) -> (r:
        Result<Object, Diagnostic>)
        requires
            old(self).wf(),
        ensures
            final(self).follows(old(self), None),
            forall|answers: Seq<Answer>| #[trigger]
                extends(final(self).answers(), answers) ==> apply_binary(
                    old(self)@,
                    operator@,
                    a@,
                    b@,
                    answers,
                ) == (Step { value: evaluated(r), after: final(self)@ }),
    {
        let computed = match question(operator, &a, &b) {
            Some(q) => self.ask_number(q, host),
            None => Number::from_bits(0),
        };
        let r = binary_result(operator, a, b, computed);
        proof {
            assert forall|answers: Seq<Answer>| #[trigger]
                extends(self.answers(), answers) implies apply_binary(
                old(self)@,
                operator@,
                a@,
                b@,
                answers,
            ) == (Step { value: evaluated(r), after: self@ }) by {}
        }
        r
    }

    /// Evaluates the operand and applies the operator.
    fn eval_unary<H: Numerics>(&mut self, operator: &Token, expr: &Expression, depth: u64, host: &H) -> (r:
        Result<Object, Diagnostic>)
        requires
            old(self).wf(),
        ensures
            final(self).follows(old(self), None),
            forall|answers: Seq<Answer>| #[trigger]
                extends(final(self).answers(), answers) ==> eval_unary(
                    old(self)@,
                    operator@,
                    expr@,
                    depth as nat,
                    answers,
                ) == (Step { value: evaluated(r), after: final(self)@ }),
        decreases depth, 1int, 0int,
    {
        let value = match self.eval_expression(expr, depth, host) {
            Ok(v) => v,
            Err(d) => {
                return Err(d);
            },
        };
        unary_result(operator, value)
    }

    /// Evaluates the arguments of a call from left to right.
    fn eval_arguments<H: Numerics>(&mut self, args: &Vec<Expression>, depth: u64, host: &H) -> (r:
        Result<Vec<Object>, Diagnostic>)
        requires
            old(self).wf(),
        ensures
            final(self).follows(old(self), None),
            r matches Ok(values) ==> values@.len() == args@.len(),
            forall|answers: Seq<Answer>| #[trigger]
                extends(final(self).answers(), answers) ==> eval_arguments(
                    old(self)@,
                    exprs_view(args@),
                    0,
                    Seq::empty(),
                    depth as nat,
                    answers,
                ) == (Step {
                    value: match r {
                        Ok(values) => Ok(objects_view(values@)),
                        Err(d) => Err(SignalView::Failure(d@)),
                    },
                    after: final(self)@,
                }),
        decreases depth, 1int, args@.len() + 1,
    {
        let ghost list = exprs_view(args@);
        let mut values: Vec<Object> = Vec::new();
        let mut i: usize = 0;
        proof {
            assert(objects_view(values@) =~= Seq::<ObjectView>::empty());
        }
        while i < args.len()
            invariant
                i <= args.len(),
                values@.len() == i,
                list == exprs_view(args@),
                self.follows(old(self), None),
                forall|answers: Seq<Answer>| #[trigger]
                    extends(self.answers(), answers) ==> eval_arguments(
                        old(self)@,
                        list,
                        0,
                        Seq::empty(),
                        depth as nat,
                        answers,
                    ) == eval_arguments(
                        self@,
                        list,
                        i as int,
                        objects_view(values@),
                        depth as nat,
                        answers,
                    ),
            decreases args.len() - i,
        {
            let ghost before = *self;
            let ghost collected = objects_view(values@);
            let r = self.eval_expression(&args[i], depth, host);
            match r {
                Ok(v) => {
                    values.push(v);
                    proof {
                        assert(objects_view(values@) =~= collected.push(v@));
                        assert forall|answers: Seq<Answer>| #[trigger]
                            extends(self.answers(), answers) implies eval_arguments(
                            old(self)@,
                            list,
                            0,
                            Seq::empty(),
                            depth as nat,
                            answers,
                        ) == eval_arguments(
                            self@,
                            list,
                            i + 1,
                            objects_view(values@),
                            depth as nat,
                            answers,
                        ) by {
                            lemma_extends_transitive(before.answers(), self.answers(), answers);
                        }
                    }
                },
                Err(d) => {
                    proof {
                        assert forall|answers: Seq<Answer>| #[trigger]
                            extends(self.answers(), answers) implies eval_arguments(
                            old(self)@,
                            list,
                            0,
                            Seq::empty(),
                            depth as nat,
                            answers,
                        ) == (Step::<Seq<ObjectView>> {
                            value: Err(SignalView::Failure(d@)),
                            after: self@,
                        }) by {
                            lemma_extends_transitive(before.answers(), self.answers(), answers);
                        }
                    }
                    return Err(d);
                },
            }
            i = i + 1;
        }
        Ok(values)
    }

    /// Evaluates a call: the callee, which must be callable; then the
    /// arguments, from left to right, of which there must be as many as the
    /// callee takes; then the call itself.
    fn eval_call<H: Numerics>(
        &mut self,
        callee: &Expression,
        paren_token: &Token,
        args: &Vec<Expression>,
        depth: u64,
        host: &H,
    ) -> (r: Result<Object, Diagnostic>)
        requires
            old(self).wf(),
        ensures
            final(self).follows(old(self), None),
            forall|answers: Seq<Answer>| #[trigger]
                extends(final(self).answers(), answers) ==> eval_call(
                    old(self)@,
                    callee@,
                    paren_token@,
                    exprs_view(args@),
                    depth as nat,
                    answers,
                ) == (Step { value: evaluated(r), after: final(self)@ }),
        decreases depth, 4int, 0int,
    {
        let target = match self.eval_expression(callee, depth, host) {
            Ok(v) => v,
            Err(d) => {
                return Err(d);
            },
        };
        let ghost first = *self;
        let callable = match target {
            Object::Callable(c) => c,
            _ => {
                return Err(
                    Diagnostic::runtime(paren_token.line, String::from_str("Expected callable object")),
                );
            },
        };
        let evaluated_arguments = self.eval_arguments(args, depth, host);
        let ghost second = *self;
        let values = match evaluated_arguments {
            Ok(values) => values,
            Err(d) => {
                proof {
                    assert forall|answers: Seq<Answer>| #[trigger]
                        extends(self.answers(), answers) implies eval_call(
                        old(self)@,
                        callee@,
                        paren_token@,
                        exprs_view(args@),
                        depth as nat,
                        answers,
                    ) == (Step { value: evaluated(Err(d)), after: self@ }) by {
                        lemma_extends_transitive(first.answers(), self.answers(), answers);
                    }
                }
                return Err(d);
            },
        };
        if callable.arity() != values.len() {
            let mut message = String::from_str("Expected ");
            message.append(decimal_string(callable.arity()).as_str());
            message.append(" argument(s), but ");
            message.append(decimal_string(values.len()).as_str());
            message.append(" were found");
            proof {
                assert forall|answers: Seq<Answer>| #[trigger]
                    extends(self.answers(), answers) implies eval_call(
                    old(self)@,
                    callee@,
                    paren_token@,
                    exprs_view(args@),
                    depth as nat,
                    answers,
                ) == failed::<ObjectView>(self@, paren_token@.line, message@) by {
                    lemma_extends_transitive(first.answers(), self.answers(), answers);
                }
            }
            return Err(Diagnostic::runtime(paren_token.line, message));
        }
        let r = self.call(&callable, values, depth, host);
        proof {
            lemma_extends_transitive(old(self).answers(), second.answers(), self.answers());
            assert forall|answers: Seq<Answer>| #[trigger]
                extends(self.answers(), answers) implies eval_call(
                old(self)@,
                callee@,
                paren_token@,
                exprs_view(args@),
                depth as nat,
                answers,
            ) == (Step { value: evaluated(r), after: self@ }) by {
                lemma_extends_transitive(first.answers(), second.answers(), answers);
            }
        }
        r
    }

    /// Calls a callable with as many arguments as it takes.
    fn call<H: Numerics>(&mut self, callable: &Callable, values: Vec<Object>, depth: u64, host: &H) -> (r:
        Result<Object, Diagnostic>)
        requires
            old(self).wf(),
            values@.len() == callable_arity(callable@),
        ensures
            final(self).follows(old(self), None),
            forall|answers: Seq<Answer>| #[trigger]
                extends(final(self).answers(), answers) ==> call(
                    old(self)@,
                    callable@,
                    objects_view(values@),
                    depth as nat,
                    answers,
                ) == (Step { value: evaluated(r), after: final(self)@ }),
        decreases depth, 3int, 0int,
    {
        match callable {
            Callable::Function(f) => self.call_function(f, values, depth, host),
            Callable::Class(c) => Ok(c.call()),
            Callable::Println(p) => Ok(self.print(&values[0], host)),
        }
    }

    /// Prints a value on a line of its own. A number is shown as the host
    /// shows it.
    fn print<H: Numerics>(&mut self, value: &Object, host: &H) -> (r: Object)
        requires
            old(self).wf(),
        ensures
            final(self).follows(old(self), None),
            forall|answers: Seq<Answer>| #[trigger]
                extends(final(self).answers(), answers) ==> print(old(self)@, value@, answers)
                    == done(final(self)@, r@),
    {
        let ghost before = self@.printed;
        let mut line = match value {
            Object::Number(n) => {
                let reply = self.ask(Question::Show(*n), host);
                let text = match reply {
                    Reply::Text(text) => text,
                    Reply::Number(_) => String::new(),
                };
                proof {
                    assert forall|answers: Seq<Answer>| #[trigger]
                        extends(self.answers(), answers) implies next_text(old(self)@, answers)
                        == text@ by {}
                }
                value.show(text)
            },
            _ => value.show(String::new()),
        };
        line.append("\n");
        let ghost shown_line = line@;
        self.output.push(line);
        assert(self@.printed =~= before.push(shown_line));
        Object::Null
    }

    /// Calls a function: a new environment is made inside the environment in
    /// which the function was declared, whatever environment the call stands
    /// in; the parameters are bound there to the arguments; and the body is
    /// executed there.
    fn call_function<H: Numerics>(&mut self, f: &Function, args: Vec<Object>, depth: u64, host: &H) -> (r:
        Result<Object, Diagnostic>)
        requires
            old(self).wf(),
            args@.len() == f@.declaration.params.len(),
        ensures
            final(self).follows(old(self), None),
            forall|answers: Seq<Answer>| #[trigger]
                extends(final(self).answers(), answers) ==> call_function(
                    old(self)@,
                    f@,
                    objects_view(args@),
                    depth as nat,
                    answers,
                ) == (Step { value: evaluated(r), after: final(self)@ }),
        decreases depth, 2int, 0int,
    {
        proof {
            reveal(Declaration::model);
            reveal(FnDecl::model);
        }
        if f.closure >= self.environments.len() {
            return Err(
                Diagnostic::runtime(
                    f.declaration.ident.line,
                    String::from_str("The environment of the function is gone"),
                ),
            );
        }
        let env = self.environments.push(f.closure);
        let ghost made = self@.scopes;
        let ghost params = f@.declaration.params;
        let ghost values = objects_view(args@);
        let mut idx: usize = 0;
        while idx < f.declaration.params.len()
            invariant
                idx <= f.declaration.params.len(),
                args@.len() == f.declaration.params@.len(),
                params == crate::token::tokens_view(f.declaration.params@),
                values == objects_view(args@),
                self.wf(),
                self@.global == old(self)@.global,
                self@.current == old(self)@.current,
                self@.printed == old(self)@.printed,
                self@.asked == old(self)@.asked,
                self.answers() == old(self).answers(),
                self.limit() == old(self).limit(),
                env == old(self)@.scopes.len(),
                env < self@.scopes.len(),
                keeps(old(self)@.scopes, self@.scopes, None),
                bind_parameters(self@.scopes, env as int, params, values, idx as int)
                    == bind_parameters(made, env as int, params, values, 0),
            decreases f.declaration.params.len() - idx,
        {
            let param = f.declaration.params[idx].lexeme.clone();
            let value = args[idx].clone();
            self.environments.define(env, param, value);
            idx = idx + 1;
        }
        if let Statement::BlockStmt(b) = &f.declaration.body {
            proof {
                assert(f@.declaration.body->BlockStmt_0 =~= decls_view(b@));
            }
            match self.exec_block(b, env, depth, host) {
                Err(Signal::Return { result, line }) => match result.value {
                    Some(o) => Ok(o),
                    None => Ok(Object::Null),
                },
                Err(Signal::Failure(d)) => Err(d),
                Ok(_) => Ok(Object::Null),
            }
        } else {
            Ok(Object::Null)
        }
    }
}

impl Function {
    /// Calls the function: a new environment is made inside the environment
    /// in which the function was declared, whatever environment the call
    /// stands in; the parameters are bound there to the arguments; and the
    /// body is executed there. The value of the call is the value that the
    /// body returns, `null` where it returns none. The outcome is what
    /// `call_function` makes of the answers that the host gave.
    pub fn call<H: Numerics>(&self, interp: &mut Interpreter, args: Vec<Object>, host: &H) -> (r:
        Result<Object, Diagnostic>)
        requires
            old(interp).wf(),
            args@.len() == self@.declaration.params.len(),
        ensures
            final(interp).follows(old(interp), None),
            forall|answers: Seq<Answer>| #[trigger]
                extends(final(interp).answers(), answers) ==> call_function(
                    old(interp)@,
                    self@,
                    objects_view(args@),
                    old(interp).limit(),
                    answers,
                ) == (Step { value: evaluated(r), after: final(interp)@ }),
    {
        let depth = interp.limit;
        interp.call_function(self, args, depth, host)
    }
}

impl Println {
    /// Prints the argument on a line of its own. The value of the call is
    /// `null`. A number is shown as the host shows it.
    pub fn call<H: Numerics>(&self, interp: &mut Interpreter, args: Vec<Object>, host: &H) -> (r:
        Result<Object, Diagnostic>)
        requires
            old(interp).wf(),
            args@.len() == 1,
        ensures
            final(interp).follows(old(interp), None),
            forall|answers: Seq<Answer>| #[trigger]
                extends(final(interp).answers(), answers) ==> print(
                    old(interp)@,
                    args@[0]@,
                    answers,
                ) == (Step { value: evaluated(r), after: final(interp)@ }),
    {
        Ok(interp.print(&args[0], host))
    }
}

} // verus!
