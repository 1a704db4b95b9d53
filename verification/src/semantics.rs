//! What a program means: the evaluator as a function.
//!
//! The evaluator asks the host for the results of arithmetic that rounds
//! and for the decimal text of numbers. Its meaning is therefore given
//! relative to the answers of the host: `answers` holds them in the order in
//! which they are given, and a machine state holds the questions that were
//! asked. Everything else is fixed here: what is evaluated and in which
//! order, what the host is asked, what is bound where, what fails and how.
//!
//! A depth bounds the evaluation: every nested statement or expression and
//! every round of a loop is evaluated at a depth one less than what is
//! around it, and at depth zero evaluation fails.

use crate::env::{Scope, bind, home, lookup, unassignable, undefined};
use crate::error::DiagnosticView;
use crate::grammar::{DeclView, ExprView, FnDeclView, LiteralView, StmtView};
use crate::number::{Answer, Number, QuestionView};
use crate::runtime::{
    CallableView, FunctionView, InstanceView, ObjectView, binary_outcome, callable_arity, failure,
    of_kind, shown, truthy, unary_outcome,
};
use crate::text::decimal;
use crate::token::{TokenType, TokenView};
use vstd::prelude::*;

verus! {

/// The state of a run: the environments, the global one and the one in
/// which code runs, what the program has printed, and what the host has
/// been asked, in order.
pub struct Machine {
    pub scopes: Seq<Scope>,
    pub global: nat,
    pub current: nat,
    pub printed: Seq<Seq<char>>,
    pub asked: Seq<QuestionView>,
}

/// What ends an evaluation before its end: a failure, or a `return` with the
/// value that it hands over and the line it stands on.
pub enum SignalView {
    Failure(DiagnosticView),
    Return { value: Option<ObjectView>, line: nat },
}

/// The outcome of an evaluation: its value, or what ended it, and the state
/// that it left.
pub struct Step<T> {
    pub value: Result<T, SignalView>,
    pub after: Machine,
}

/// An evaluation that ended well.
pub open spec fn done<T>(after: Machine, value: T) -> Step<T> {
    Step { value: Ok(value), after }
}

/// An evaluation that failed.
pub open spec fn failed<T>(after: Machine, line: nat, message: Seq<char>) -> Step<T> {
    Step { value: Err(SignalView::Failure(failure(line, message))), after }
}

/// The outcome `step`, for an evaluation of another type that it ends.
pub open spec fn ended<T, U>(step: Step<T>) -> Step<U> {
    Step {
        value: Err(
            match step.value {
                Err(signal) => signal,
                Ok(_) => SignalView::Failure(failure(0, Seq::empty())),
            },
        ),
        after: step.after,
    }
}

/// The number that the host answers next.
pub open spec fn next_number(m: Machine, answers: Seq<Answer>) -> Number {
    if m.asked.len() < answers.len() {
        match answers[m.asked.len() as int] {
            Answer::Number(n) => n,
            Answer::Text(_) => Number { bits: 0 },
        }
    } else {
        Number { bits: 0 }
    }
}

/// The text that the host answers next.
pub open spec fn next_text(m: Machine, answers: Seq<Answer>) -> Seq<char> {
    if m.asked.len() < answers.len() {
        match answers[m.asked.len() as int] {
            Answer::Text(t) => t,
            Answer::Number(_) => Seq::empty(),
        }
    } else {
        Seq::empty()
    }
}

/// The state after the host has been asked `question`.
pub open spec fn asked(m: Machine, question: QuestionView) -> Machine {
    Machine { asked: m.asked.push(question), ..m }
}

/// The state with other environments.
pub open spec fn with_scopes(m: Machine, scopes: Seq<Scope>) -> Machine {
    Machine { scopes, ..m }
}

/// The state in which code runs in the environment `env`.
pub open spec fn running_in(m: Machine, env: nat) -> Machine {
    Machine { current: env, ..m }
}

/// The failure of an evaluation that has used up its depth.
pub open spec fn exhausted<T>(m: Machine) -> Step<T> {
    failed(m, 0, "Evaluation limit reached"@)
}

/// The message for a call with the wrong number of arguments.
pub open spec fn wrong_arity(expected: nat, found: nat) -> Seq<char> {
    "Expected "@ + decimal(expected) + " argument(s), but "@ + decimal(found) + " were found"@
}

/// The value of a literal that is no number.
pub open spec fn literal_value(literal: LiteralView) -> ObjectView {
    match literal {
        LiteralView::Boolean(b) => ObjectView::Boolean(b),
        LiteralView::Number(_) => ObjectView::Null,
        LiteralView::Str(s) => ObjectView::Str(s),
        LiteralView::Null => ObjectView::Null,
    }
}

/// Whether `left`, the value of the left operand of `and` or `or`, settles
/// the value of the whole: a true left operand settles `or`, a false one
/// settles `and`.
pub open spec fn settles(operator: TokenView, left: ObjectView) -> bool {
    if of_kind(operator, TokenType::Or) {
        truthy(left)
    } else {
        !truthy(left)
    }
}

/// What the host is asked for a binary operator between two values: the
/// result of `+`, `-` and `*` on two numbers, and that of `/` on two numbers
/// where the divisor is not zero. For everything else it is not asked.
pub open spec fn binary_question(operator: TokenView, a: ObjectView, b: ObjectView) -> Option<
    QuestionView,
> {
    match (a, b) {
        (ObjectView::Number(x), ObjectView::Number(y)) => if of_kind(operator, TokenType::Plus) {
            Some(QuestionView::Add(x, y))
        } else if of_kind(operator, TokenType::Minus) {
            Some(QuestionView::Subtract(x, y))
        } else if of_kind(operator, TokenType::Star) {
            Some(QuestionView::Multiply(x, y))
        } else if of_kind(operator, TokenType::Slash) && !y.is_zero() {
            Some(QuestionView::Divide(x, y))
        } else {
            None
        },
        _ => None,
    }
}

/// A literal: a number literal denotes the number that the host reads from
/// it.
pub open spec fn eval_literal(m: Machine, literal: LiteralView, answers: Seq<Answer>) -> Step<
    ObjectView,
> {
    match literal {
        LiteralView::Number(text) => done(
            asked(m, QuestionView::Number(text)),
            ObjectView::Number(next_number(m, answers)),
        ),
        _ => done(m, literal_value(literal)),
    }
}

/// A variable: the value that its name stands for in the current
/// environment.
pub open spec fn eval_variable(m: Machine, name: TokenView) -> Step<ObjectView> {
    match lookup(m.scopes, m.current as int, name.lexeme) {
        Some(v) => done(m, v),
        None => failed(m, name.line, undefined(name.lexeme)),
    }
}

/// A binary operator between two values.
pub open spec fn apply_binary(
    m: Machine,
    operator: TokenView,
    a: ObjectView,
    b: ObjectView,
    answers: Seq<Answer>,
) -> Step<ObjectView> {
    let after = match binary_question(operator, a, b) {
        Some(question) => asked(m, question),
        None => m,
    };
    match binary_outcome(operator, a, b, next_number(m, answers)) {
        Ok(v) => done(after, v),
        Err(d) => Step { value: Err(SignalView::Failure(d)), after },
    }
}

/// A unary operator before a value.
pub open spec fn apply_unary(m: Machine, operator: TokenView, v: ObjectView) -> Step<ObjectView> {
    match unary_outcome(operator, v) {
        Ok(r) => done(m, r),
        Err(d) => Step { value: Err(SignalView::Failure(d)), after: m },
    }
}

/// The assignment of a value to a name: the environment that binds the name
/// for the code that runs gets the value. Where no environment binds the
/// name, the assignment fails and nothing changes.
pub open spec fn assign(m: Machine, name: TokenView, value: ObjectView) -> Step<ObjectView> {
    match home(m.scopes, m.current as int, name.lexeme) {
        Some(h) => done(with_scopes(m, bind(m.scopes, h, name.lexeme, value)), value),
        None => failed(m, name.line, unassignable(name.lexeme)),
    }
}

/// `println`: the argument is shown on a line of its own. A number is shown
/// as the host shows it.
pub open spec fn print(m: Machine, value: ObjectView, answers: Seq<Answer>) -> Step<ObjectView> {
    let text = shown(value, next_text(m, answers));
    let after = match value {
        ObjectView::Number(n) => asked(m, QuestionView::Show(n)),
        _ => m,
    };
    done(Machine { printed: after.printed.push(text + "\n"@), ..after }, ObjectView::Null)
}

/// The environments after the parameters from the one at `i` on are bound to
/// their arguments in the environment `env`.
pub open spec fn bind_parameters(
    scopes: Seq<Scope>,
    env: int,
    params: Seq<TokenView>,
    values: Seq<ObjectView>,
    i: int,
) -> Seq<Scope>
    decreases params.len() - i,
{
    if i < 0 || i >= params.len() {
        scopes
    } else {
        bind_parameters(bind(scopes, env, params[i].lexeme, values[i]), env, params, values, i + 1)
    }
}

/// What a call makes of the outcome of the body: a `return` ends the call
/// and hands over its value; a body that ends without one makes `null`.
pub open spec fn returned(body: Step<()>) -> Step<ObjectView> {
    match body.value {
        Ok(_) => done(body.after, ObjectView::Null),
        Err(SignalView::Return { value, line }) => done(
            body.after,
            match value {
                Some(v) => v,
                None => ObjectView::Null,
            },
        ),
        Err(SignalView::Failure(d)) => Step { value: Err(SignalView::Failure(d)), after: body.after },
    }
}

/// An expression.
pub open spec fn eval(m: Machine, e: ExprView, depth: nat, answers: Seq<Answer>) -> Step<ObjectView>
    decreases depth, 0int, 0int,
{
    if depth == 0 {
        exhausted(m)
    } else {
        let d = (depth - 1) as nat;
        match e {
            ExprView::Literal(literal) => eval_literal(m, literal, answers),
            ExprView::Var(name) => eval_variable(m, name),
            ExprView::Call { callee, paren_token, args } => eval_call(
                m,
                *callee,
                paren_token,
                args,
                d,
                answers,
            ),
            ExprView::Unary { operator, expr } => eval_unary(m, operator, *expr, d, answers),
            ExprView::Binary { left, operator, right } => eval_binary(
                m,
                *left,
                operator,
                *right,
                d,
                answers,
            ),
            ExprView::Logical { left, operator, right } => eval_logical(
                m,
                *left,
                operator,
                *right,
                d,
                answers,
            ),
            ExprView::Range { left, right } => failed(m, 0, "A range can only be used in a for loop"@),
            ExprView::Grouping(inner) => eval(m, *inner, d, answers),
            ExprView::Assignment { ident, expr } => eval_assignment(m, ident, *expr, d, answers),
        }
    }
}

/// An assignment: the right side is evaluated and its value given to the
/// name; it is the value of the assignment.
pub open spec fn eval_assignment(
    m: Machine,
    name: TokenView,
    e: ExprView,
    depth: nat,
    answers: Seq<Answer>,
) -> Step<ObjectView>
    decreases depth, 1int, 0int,
{
    let value = eval(m, e, depth, answers);
    match value.value {
        Ok(v) => assign(value.after, name, v),
        Err(_) => value,
    }
}

/// What follows the left operand of `and` or `or` once it has the value
/// `left`: where that settles the value of the whole, nothing more is
/// evaluated; else the right operand is, and its value is the value of the
/// whole.
pub open spec fn eval_logical_right(
    m: Machine,
    left: ObjectView,
    operator: TokenView,
    right: ExprView,
    depth: nat,
    answers: Seq<Answer>,
) -> Step<ObjectView>
    decreases depth, 1int, 0int,
{
    if settles(operator, left) {
        done(m, left)
    } else {
        eval(m, right, depth, answers)
    }
}

/// `left and right` or `left or right`.
pub open spec fn eval_logical(
    m: Machine,
    left: ExprView,
    operator: TokenView,
    right: ExprView,
    depth: nat,
    answers: Seq<Answer>,
) -> Step<ObjectView>
    decreases depth, 2int, 0int,
{
    let value = eval(m, left, depth, answers);
    match value.value {
        Ok(v) => eval_logical_right(value.after, v, operator, right, depth, answers),
        Err(_) => value,
    }
}

/// A binary operator between two expressions: the left one is evaluated
/// first.
pub open spec fn eval_binary(
    m: Machine,
    left: ExprView,
    operator: TokenView,
    right: ExprView,
    depth: nat,
    answers: Seq<Answer>,
) -> Step<ObjectView>
    decreases depth, 1int, 0int,
{
    let a = eval(m, left, depth, answers);
    match a.value {
        Ok(x) => {
            let b = eval(a.after, right, depth, answers);
            match b.value {
                Ok(y) => apply_binary(b.after, operator, x, y, answers),
                Err(_) => b,
            }
        },
        Err(_) => a,
    }
}

/// A unary operator before an expression.
pub open spec fn eval_unary(
    m: Machine,
    operator: TokenView,
    e: ExprView,
    depth: nat,
    answers: Seq<Answer>,
) -> Step<ObjectView>
    decreases depth, 1int, 0int,
{
    let value = eval(m, e, depth, answers);
    match value.value {
        Ok(v) => apply_unary(value.after, operator, v),
        Err(_) => value,
    }
}

/// The arguments of a call from the one at `i` on, evaluated from left to
/// right. `values` holds the values of those before.
pub open spec fn eval_arguments(
    m: Machine,
    args: Seq<ExprView>,
    i: int,
    values: Seq<ObjectView>,
    depth: nat,
    answers: Seq<Answer>,
) -> Step<Seq<ObjectView>>
    decreases depth, 1int, args.len() - i,
{
    if i < 0 || i >= args.len() {
        done(m, values)
    } else {
        let value = eval(m, args[i], depth, answers);
        match value.value {
            Ok(v) => eval_arguments(value.after, args, i + 1, values.push(v), depth, answers),
            Err(_) => ended(value),
        }
    }
}

/// A call: the callee is evaluated and must be callable; then the
/// arguments are evaluated, and there must be as many as the callee takes;
/// then the callee is called.
pub open spec fn eval_call(
    m: Machine,
    callee: ExprView,
    paren: TokenView,
    args: Seq<ExprView>,
    depth: nat,
    answers: Seq<Answer>,
) -> Step<ObjectView>
    decreases depth, 4int, 0int,
{
    let target = eval(m, callee, depth, answers);
    match target.value {
        Ok(ObjectView::Callable(callable)) => {
            let values = eval_arguments(target.after, args, 0, Seq::empty(), depth, answers);
            match values.value {
                Ok(list) => if callable_arity(callable) != list.len() {
                    failed(
                        values.after,
                        paren.line,
                        wrong_arity(callable_arity(callable), list.len()),
                    )
                } else {
                    call(values.after, callable, list, depth, answers)
                },
                Err(_) => ended(values),
            }
        },
        Ok(_) => failed(target.after, paren.line, "Expected callable object"@),
        Err(_) => target,
    }
}

/// The call of a callable with as many arguments as it takes.
pub open spec fn call(
    m: Machine,
    callable: CallableView,
    values: Seq<ObjectView>,
    depth: nat,
    answers: Seq<Answer>,
) -> Step<ObjectView>
    decreases depth, 3int, 0int,
{
    match callable {
        CallableView::Function(f) => call_function(m, f, values, depth, answers),
        CallableView::Class(name) => done(
            m,
            ObjectView::Instance(InstanceView { class: name, fields: Seq::empty() }),
        ),
        CallableView::Println => print(m, values[0], answers),
    }
}

/// The call of a function: a new environment is made inside the one that
/// the function was declared in, the parameters are bound there to the
/// arguments, and the body is executed there.
pub open spec fn call_function(
    m: Machine,
    f: FunctionView,
    values: Seq<ObjectView>,
    depth: nat,
    answers: Seq<Answer>,
) -> Step<ObjectView>
    decreases depth, 2int, 0int,
{
    if f.closure >= m.scopes.len() {
        failed(m, f.declaration.ident.line, "The environment of the function is gone"@)
    } else {
        let env = m.scopes.len();
        let made = m.scopes.push(
            Scope { bindings: Map::<Seq<char>, ObjectView>::empty(), enclosing: Some(f.closure) },
        );
        let bound = with_scopes(
            m,
            bind_parameters(made, env as int, f.declaration.params, values, 0),
        );
        match f.declaration.body {
            StmtView::BlockStmt(declarations) => returned(
                exec_block(bound, declarations, env, depth, answers),
            ),
            _ => done(bound, ObjectView::Null),
        }
    }
}

/// The declarations of a block, executed in the environment `env`; then
/// code runs again where it ran before, whether or not the block failed.
pub open spec fn exec_block(
    m: Machine,
    declarations: Seq<DeclView>,
    env: nat,
    depth: nat,
    answers: Seq<Answer>,
) -> Step<()>
    decreases depth, 1int, declarations.len() + 1,
{
    let inside = exec_declarations(running_in(m, env), declarations, 0, depth, answers);
    Step { value: inside.value, after: running_in(inside.after, m.current) }
}

/// The declarations from the one at `i` on, executed one after the other up
/// to the first that does not end well.
pub open spec fn exec_declarations(
    m: Machine,
    declarations: Seq<DeclView>,
    i: int,
    depth: nat,
    answers: Seq<Answer>,
) -> Step<()>
    decreases depth, 1int, declarations.len() - i,
{
    if i < 0 || i >= declarations.len() {
        done(m, ())
    } else {
        let first = declare(m, declarations[i], depth, answers);
        match first.value {
            Ok(_) => exec_declarations(first.after, declarations, i + 1, depth, answers),
            Err(_) => first,
        }
    }
}

/// A declaration.
pub open spec fn declare(m: Machine, declaration: DeclView, depth: nat, answers: Seq<Answer>) -> Step<
    (),
>
    decreases depth, 0int, 0int,
{
    if depth == 0 {
        exhausted(m)
    } else {
        let d = (depth - 1) as nat;
        match declaration {
            DeclView::StmtDecl(statement) => exec(m, statement, d, answers),
            DeclView::LetDecl { ident, init } => declare_variable(m, ident, init, d, answers),
            DeclView::FnDecl(f) => declare_function(m, f),
        }
    }
}

/// The declaration of a function: its name is bound, in the current
/// environment, to the function, which keeps the current environment.
pub open spec fn declare_function(m: Machine, f: FnDeclView) -> Step<()> {
    done(
        with_scopes(
            m,
            bind(
                m.scopes,
                m.current as int,
                f.ident.lexeme,
                ObjectView::Callable(
                    CallableView::Function(FunctionView { declaration: f, closure: m.current }),
                ),
            ),
        ),
        (),
    )
}

/// The declaration of a variable: its name is bound, in the current
/// environment, to the value of the initializer, to `null` without one.
pub open spec fn declare_variable(
    m: Machine,
    name: TokenView,
    init: Option<ExprView>,
    depth: nat,
    answers: Seq<Answer>,
) -> Step<()>
    decreases depth, 1int, 0int,
{
    match init {
        Some(e) => {
            let value = eval(m, e, depth, answers);
            match value.value {
                Ok(v) => done(
                    with_scopes(
                        value.after,
                        bind(value.after.scopes, value.after.current as int, name.lexeme, v),
                    ),
                    (),
                ),
                Err(_) => ended(value),
            }
        },
        None => done(
            with_scopes(m, bind(m.scopes, m.current as int, name.lexeme, ObjectView::Null)),
            (),
        ),
    }
}

/// A statement.
pub open spec fn exec(m: Machine, statement: StmtView, depth: nat, answers: Seq<Answer>) -> Step<()>
    decreases depth, 0int, 0int,
{
    if depth == 0 {
        exhausted(m)
    } else {
        let d = (depth - 1) as nat;
        match statement {
            StmtView::ExprStmt(e) => {
                let value = eval(m, e, d, answers);
                match value.value {
                    Ok(_) => done(value.after, ()),
                    Err(_) => ended(value),
                }
            },
            StmtView::BlockStmt(declarations) => {
                let env = m.scopes.len();
                let made = with_scopes(
                    m,
                    m.scopes.push(
                        Scope {
                            bindings: Map::<Seq<char>, ObjectView>::empty(),
                            enclosing: Some(m.current),
                        },
                    ),
                );
                exec_block(made, declarations, env, d, answers)
            },
            StmtView::IfStmt { condition, if_branch, else_branch } => exec_if(
                m,
                condition,
                *if_branch,
                else_branch,
                d,
                answers,
            ),
            StmtView::WhileStmt { condition, body } => exec_while(m, condition, *body, d, answers),
            StmtView::ReturnStmt { return_token, expr } => exec_return(
                m,
                return_token,
                expr,
                d,
                answers,
            ),
        }
    }
}

/// `if`: the condition is evaluated; where it is true the first branch is
/// executed, else the second, if there is one.
pub open spec fn exec_if(
    m: Machine,
    condition: ExprView,
    first: StmtView,
    second: Option<Box<StmtView>>,
    depth: nat,
    answers: Seq<Answer>,
) -> Step<()>
    decreases depth, 1int, 0int,
{
    let value = eval(m, condition, depth, answers);
    match value.value {
        Ok(v) => if truthy(v) {
            exec(value.after, first, depth, answers)
        } else {
            match second {
                Some(branch) => exec(value.after, *branch, depth, answers),
                None => done(value.after, ()),
            }
        },
        Err(_) => ended(value),
    }
}

/// `while`: as long as the condition is true, the body is executed. Every
/// round is evaluated at a depth one less than the round before.
pub open spec fn exec_while(
    m: Machine,
    condition: ExprView,
    body: StmtView,
    depth: nat,
    answers: Seq<Answer>,
) -> Step<()>
    decreases depth, 1int, 0int,
{
    if depth == 0 {
        exhausted(m)
    } else {
        let d = (depth - 1) as nat;
        let value = eval(m, condition, d, answers);
        match value.value {
            Ok(v) => if truthy(v) {
                let round = exec(value.after, body, d, answers);
                match round.value {
                    Ok(_) => exec_while(round.after, condition, body, d, answers),
                    Err(_) => round,
                }
            } else {
                done(value.after, ())
            },
            Err(_) => ended(value),
        }
    }
}

/// `return`: its value is evaluated, and the return is signalled.
pub open spec fn exec_return(
    m: Machine,
    keyword: TokenView,
    value: Option<ExprView>,
    depth: nat,
    answers: Seq<Answer>,
) -> Step<()>
    decreases depth, 1int, 0int,
{
    match value {
        Some(e) => {
            let v = eval(m, e, depth, answers);
            match v.value {
                Ok(x) => Step {
                    value: Err(SignalView::Return { value: Some(x), line: keyword.line }),
                    after: v.after,
                },
                Err(_) => ended(v),
            }
        },
        None => Step {
            value: Err(SignalView::Return { value: None, line: keyword.line }),
            after: m,
        },
    }
}

/// A program: its declarations are executed one after the other, in the
/// current environment, up to the first failure. A `return` outside of every
/// function is a failure.
pub open spec fn run(m: Machine, program: Seq<DeclView>, depth: nat, answers: Seq<Answer>) -> Step<
    (),
> {
    let all = exec_declarations(m, program, 0, depth, answers);
    match all.value {
        Err(SignalView::Return { value, line }) => failed(all.after, line, "return outside function"@),
        _ => all,
    }
}

/// Short circuit: where the left operand of `or` is true, or that of `and`
/// is false, the right operand is not evaluated. The value of the whole is
/// that of the left operand, and so is the state that the evaluation
/// leaves: nothing that evaluating the right operand would do is done.
pub proof fn law_short_circuit(
    m: Machine,
    left: ExprView,
    operator: TokenView,
    right: ExprView,
    depth: nat,
    answers: Seq<Answer>,
)
    requires
        depth > 0,
        eval(m, left, (depth - 1) as nat, answers).value matches Ok(v) && settles(operator, v),
    ensures
        eval(
            m,
            ExprView::Logical { left: Box::new(left), operator, right: Box::new(right) },
            depth,
            answers,
        ) == eval(m, left, (depth - 1) as nat, answers),
        of_kind(operator, TokenType::Or) ==> truthy(
            eval(m, left, (depth - 1) as nat, answers).value->Ok_0,
        ),
        !of_kind(operator, TokenType::Or) ==> !truthy(
            eval(m, left, (depth - 1) as nat, answers).value->Ok_0,
        ),
{
    reveal_with_fuel(eval, 3);
}

/// Lexical scope: a call does not depend on the environment that it stands
/// in. Were the call made from another environment `elsewhere`, its value
/// would be the same and it would leave the same state, but for the current
/// environment, which is in both cases the one that the call was made from.
/// The body runs in a new environment inside the one that the function was
/// declared in.
pub proof fn law_lexical_scope(
    m: Machine,
    f: FunctionView,
    values: Seq<ObjectView>,
    depth: nat,
    answers: Seq<Answer>,
    elsewhere: nat,
)
    ensures
        call_function(running_in(m, elsewhere), f, values, depth, answers).value == call_function(
            m,
            f,
            values,
            depth,
            answers,
        ).value,
        call_function(running_in(m, elsewhere), f, values, depth, answers).after == running_in(
            call_function(m, f, values, depth, answers).after,
            elsewhere,
        ),
        call_function(m, f, values, depth, answers).after.current == m.current,
{
}

/// Assignment does not create: an assignment to a name that no environment
/// around the code binds fails, and the environments stay as the evaluation
/// of the right side left them.
pub proof fn law_assignment_creates_nothing(
    m: Machine,
    name: TokenView,
    e: ExprView,
    depth: nat,
    answers: Seq<Answer>,
)
    requires
        depth > 0,
        eval(m, e, (depth - 1) as nat, answers).value is Ok,
        home(
            eval(m, e, (depth - 1) as nat, answers).after.scopes,
            eval(m, e, (depth - 1) as nat, answers).after.current as int,
            name.lexeme,
        ) is None,
    ensures
        eval(m, ExprView::Assignment { ident: name, expr: Box::new(e) }, depth, answers) == failed::<
            ObjectView,
        >(
            eval(m, e, (depth - 1) as nat, answers).after,
            name.line,
            unassignable(name.lexeme),
        ),
{
    reveal_with_fuel(eval, 3);
}

} // verus!
