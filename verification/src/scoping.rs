//! Scoping: what running code can and cannot do to the environments.
//!
//! Whatever is evaluated, every environment that was there stays, enclosed
//! as it was, and binds the names that it bound: a name is bound only by a
//! declaration, and only in the environment in which the declaration is
//! executed. A block has an environment of its own, so what it declares is
//! not visible once it has ended.

use crate::env::{Scope, bind, home, keeps, lemma_keeps_bind, well_linked};
use crate::grammar::{DeclView, ExprView, StmtView};
use crate::runtime::{CallableView, FunctionView, ObjectView};
use crate::number::Answer;
use crate::semantics::{
    Machine, bind_parameters, call_function, declare, eval, eval_arguments, eval_call, exec,
    exec_block, exec_declarations, exec_while, running_in, with_scopes,
};
use crate::token::TokenView;
use vstd::prelude::*;

verus! {

/// The environments of a state are well linked, and its global and its
/// current environment are among them.
pub open spec fn sound(m: Machine) -> bool {
    &&& well_linked(m.scopes)
    &&& m.global < m.scopes.len()
    &&& m.current < m.scopes.len()
}

/// What holds of the state `after` code has run from the state `before`: it
/// is sound, code runs in the environment in which it ran before, and the
/// environments are kept (see `keeps`): no name has become visible or
/// invisible in an environment that was there, but for names declared in
/// the environment `open`.
pub open spec fn kept(before: Machine, after: Machine, open: Option<int>) -> bool {
    &&& sound(after)
    &&& after.global == before.global
    &&& after.current == before.current
    &&& keeps(before.scopes, after.scopes, open)
}

/// The environment that binds a name for code that runs in `env` does bind
/// the name, and it is `env` or was made before it.
pub proof fn lemma_home_binds(scopes: Seq<Scope>, env: int, name: Seq<char>)
    ensures
        match home(scopes, env, name) {
            Some(h) => 0 <= h <= env && h < scopes.len() && scopes[h].bindings.contains_key(name),
            None => true,
        },
    decreases env,
{
    if 0 <= env < scopes.len() && !scopes[env].bindings.contains_key(name) {
        match scopes[env].enclosing {
            Some(p) => {
                if p < env {
                    lemma_home_binds(scopes, p as int, name);
                }
            },
            None => {},
        }
    }
}

/// Binding the parameters of a function in the environment made for its
/// call changes no other environment.
proof fn lemma_parameters_kept(
    scopes: Seq<Scope>,
    env: int,
    params: Seq<TokenView>,
    values: Seq<ObjectView>,
    i: int,
)
    requires
        0 <= env < scopes.len(),
        well_linked(scopes),
    ensures
        keeps(scopes, bind_parameters(scopes, env, params, values, i), Some(env)),
        well_linked(bind_parameters(scopes, env, params, values, i)),
        bind_parameters(scopes, env, params, values, i).len() == scopes.len(),
    decreases params.len() - i,
{
    if 0 <= i < params.len() {
        let next = bind(scopes, env, params[i].lexeme, values[i]);
        lemma_parameters_kept(next, env, params, values, i + 1);
    }
}

/// An expression keeps the state.
pub proof fn lemma_eval_kept(m: Machine, e: ExprView, depth: nat, answers: Seq<Answer>)
    requires
        sound(m),
    ensures
        kept(m, eval(m, e, depth, answers).after, None),
    decreases depth, 0int, 0int,
{
    reveal_with_fuel(eval, 3);
    if depth > 0 {
        let d = (depth - 1) as nat;
        match e {
            ExprView::Call { callee, paren_token, args } => {
                lemma_eval_call_kept(m, *callee, paren_token, args, d, answers);
            },
            ExprView::Unary { operator, expr } => {
                lemma_eval_kept(m, *expr, d, answers);
            },
            ExprView::Binary { left, operator, right } => {
                lemma_eval_kept(m, *left, d, answers);
                let a = eval(m, *left, d, answers);
                if a.value is Ok {
                    lemma_eval_kept(a.after, *right, d, answers);
                }
            },
            ExprView::Logical { left, operator, right } => {
                lemma_eval_kept(m, *left, d, answers);
                let a = eval(m, *left, d, answers);
                if a.value is Ok {
                    lemma_eval_kept(a.after, *right, d, answers);
                }
            },
            ExprView::Grouping(inner) => {
                lemma_eval_kept(m, *inner, d, answers);
            },
            ExprView::Assignment { ident, expr } => {
                lemma_eval_kept(m, *expr, d, answers);
                let v = eval(m, *expr, d, answers);
                if v.value is Ok {
                    match home(v.after.scopes, v.after.current as int, ident.lexeme) {
                        Some(h) => {
                            lemma_home_binds(v.after.scopes, v.after.current as int, ident.lexeme);
                            lemma_keeps_bind(v.after.scopes, h, ident.lexeme, v.value->Ok_0);
                        },
                        None => {},
                    }
                }
            },
            _ => {},
        }
    }
}

/// The arguments of a call keep the state.
proof fn lemma_eval_arguments_kept(
    m: Machine,
    args: Seq<ExprView>,
    i: int,
    values: Seq<ObjectView>,
    depth: nat,
    answers: Seq<Answer>,
)
    requires
        sound(m),
    ensures
        kept(m, eval_arguments(m, args, i, values, depth, answers).after, None),
    decreases depth, 1int, args.len() - i,
{
    if 0 <= i < args.len() {
        lemma_eval_kept(m, args[i], depth, answers);
        let value = eval(m, args[i], depth, answers);
        if value.value is Ok {
            lemma_eval_arguments_kept(
                value.after,
                args,
                i + 1,
                values.push(value.value->Ok_0),
                depth,
                answers,
            );
        }
    }
}

/// A call keeps the state.
proof fn lemma_eval_call_kept(
    m: Machine,
    callee: ExprView,
    paren: TokenView,
    args: Seq<ExprView>,
    depth: nat,
    answers: Seq<Answer>,
)
    requires
        sound(m),
    ensures
        kept(m, eval_call(m, callee, paren, args, depth, answers).after, None),
    decreases depth, 4int, 0int,
{
    lemma_eval_kept(m, callee, depth, answers);
    let target = eval(m, callee, depth, answers);
    match target.value {
        Ok(ObjectView::Callable(callable)) => {
            lemma_eval_arguments_kept(target.after, args, 0, Seq::empty(), depth, answers);
            let values = eval_arguments(target.after, args, 0, Seq::empty(), depth, answers);
            match values.value {
                Ok(list) => {
                    match callable {
                        CallableView::Function(f) => {
                            lemma_call_function_kept(values.after, f, list, depth, answers);
                        },
                        CallableView::Class(_) => {},
                        CallableView::Println => {},
                    }
                },
                Err(_) => {},
            }
        },
        _ => {},
    }
}

/// The call of a function keeps the state: what its body declares is bound
/// in the environment made for the call.
pub proof fn lemma_call_function_kept(
    m: Machine,
    f: FunctionView,
    values: Seq<ObjectView>,
    depth: nat,
    answers: Seq<Answer>,
)
    requires
        sound(m),
    ensures
        kept(m, call_function(m, f, values, depth, answers).after, None),
    decreases depth, 2int, 0int,
{
    if f.closure < m.scopes.len() {
        let env = m.scopes.len();
        let fresh = Scope {
            bindings: Map::<Seq<char>, ObjectView>::empty(),
            enclosing: Some(f.closure),
        };
        let made = m.scopes.push(fresh);
        lemma_parameters_kept(made, env as int, f.declaration.params, values, 0);
        let bound = with_scopes(
            m,
            bind_parameters(made, env as int, f.declaration.params, values, 0),
        );
        match f.declaration.body {
            StmtView::BlockStmt(declarations) => {
                lemma_exec_block_kept(bound, declarations, env, depth, answers);
                let body = exec_block(bound, declarations, env, depth, answers);
            },
            _ => {},
        }
    }
}

/// A block keeps the state, with its own environment open.
pub proof fn lemma_exec_block_kept(
    m: Machine,
    declarations: Seq<DeclView>,
    env: nat,
    depth: nat,
    answers: Seq<Answer>,
)
    requires
        sound(m),
        env < m.scopes.len(),
    ensures
        kept(m, exec_block(m, declarations, env, depth, answers).after, Some(env as int)),
    decreases depth, 1int, declarations.len() + 1,
{
    lemma_exec_declarations_kept(running_in(m, env), declarations, 0, depth, answers);
}

/// Declarations keep the state, with the current environment open.
pub proof fn lemma_exec_declarations_kept(
    m: Machine,
    declarations: Seq<DeclView>,
    i: int,
    depth: nat,
    answers: Seq<Answer>,
)
    requires
        sound(m),
    ensures
        kept(
            m,
            exec_declarations(m, declarations, i, depth, answers).after,
            Some(m.current as int),
        ),
    decreases depth, 1int, declarations.len() - i,
{
    if 0 <= i < declarations.len() {
        lemma_declare_kept(m, declarations[i], depth, answers);
        let first = declare(m, declarations[i], depth, answers);
        if first.value is Ok {
            lemma_exec_declarations_kept(first.after, declarations, i + 1, depth, answers);
        }
    }
}

/// A declaration keeps the state, with the current environment open.
proof fn lemma_declare_kept(m: Machine, declaration: DeclView, depth: nat, answers: Seq<Answer>)
    requires
        sound(m),
    ensures
        kept(m, declare(m, declaration, depth, answers).after, Some(m.current as int)),
    decreases depth, 0int, 0int,
{
    if depth > 0 {
        let d = (depth - 1) as nat;
        match declaration {
            DeclView::StmtDecl(statement) => {
                lemma_exec_kept(m, statement, d, answers);
            },
            DeclView::LetDecl { ident, init } => {
                match init {
                    Some(e) => {
                        lemma_eval_kept(m, e, d, answers);
                    },
                    None => {},
                }
            },
            DeclView::FnDecl(f) => {},
        }
    }
}

/// A statement keeps the state.
pub proof fn lemma_exec_kept(m: Machine, statement: StmtView, depth: nat, answers: Seq<Answer>)
    requires
        sound(m),
    ensures
        kept(m, exec(m, statement, depth, answers).after, None),
    decreases depth, 0int, 0int,
{
    if depth > 0 {
        let d = (depth - 1) as nat;
        match statement {
            StmtView::ExprStmt(e) => {
                lemma_eval_kept(m, e, d, answers);
            },
            StmtView::BlockStmt(declarations) => {
                let env = m.scopes.len();
                let fresh = Scope {
                    bindings: Map::<Seq<char>, ObjectView>::empty(),
                    enclosing: Some(m.current),
                };
                let made = with_scopes(m, m.scopes.push(fresh));
                lemma_exec_block_kept(made, declarations, env, d, answers);
            },
            StmtView::IfStmt { condition, if_branch, else_branch } => {
                lemma_eval_kept(m, condition, d, answers);
                let value = eval(m, condition, d, answers);
                if value.value is Ok {
                    lemma_exec_kept(value.after, *if_branch, d, answers);
                    match else_branch {
                        Some(branch) => {
                            lemma_exec_kept(value.after, *branch, d, answers);
                        },
                        None => {},
                    }
                }
            },
            StmtView::WhileStmt { condition, body } => {
                lemma_exec_while_kept(m, condition, *body, d, answers);
            },
            StmtView::ReturnStmt { return_token, expr } => {
                match expr {
                    Some(e) => {
                        lemma_eval_kept(m, e, d, answers);
                    },
                    None => {},
                }
            },
        }
    }
}

/// A loop keeps the state.
proof fn lemma_exec_while_kept(
    m: Machine,
    condition: ExprView,
    body: StmtView,
    depth: nat,
    answers: Seq<Answer>,
)
    requires
        sound(m),
    ensures
        kept(m, exec_while(m, condition, body, depth, answers).after, None),
    decreases depth, 1int, 0int,
{
    if depth > 0 {
        let d = (depth - 1) as nat;
        lemma_eval_kept(m, condition, d, answers);
        let value = eval(m, condition, d, answers);
        if value.value is Ok && crate::runtime::truthy(value.value->Ok_0) {
            lemma_exec_kept(value.after, body, d, answers);
            let round = exec(value.after, body, d, answers);
            if round.value is Ok {
                lemma_exec_while_kept(round.after, condition, body, d, answers);
            }
        }
    }
}

/// Block scoping: what a block declares is not visible outside of it. When
/// the block has ended, code runs in the environment in which it ran
/// before, and every environment that was there binds the names that it
/// bound before, no more and no less: every name that is visible was
/// visible, and the other way round.
pub proof fn law_block_scoping(
    m: Machine,
    declarations: Seq<DeclView>,
    depth: nat,
    answers: Seq<Answer>,
    name: Seq<char>,
)
    requires
        sound(m),
    ensures
        kept(m, exec(m, StmtView::BlockStmt(declarations), depth, answers).after, None),
        home(
            exec(m, StmtView::BlockStmt(declarations), depth, answers).after.scopes,
            m.current as int,
            name,
        ) == home(m.scopes, m.current as int, name),
{
    let after = exec(m, StmtView::BlockStmt(declarations), depth, answers).after;
    lemma_exec_kept(m, StmtView::BlockStmt(declarations), depth, answers);
    lemma_home_kept(m.scopes, after.scopes, m.current as int, name);
}

/// Where the environments are kept, a name is bound for code that runs in
/// one of them by the environment that bound it before.
pub proof fn lemma_home_kept(before: Seq<Scope>, after: Seq<Scope>, env: int, name: Seq<char>)
    requires
        keeps(before, after, None),
        well_linked(before),
        0 <= env < before.len(),
    ensures
        home(after, env, name) == home(before, env, name),
    decreases env,
{
    if !before[env].bindings.contains_key(name) {
        match before[env].enclosing {
            Some(p) => {
                if p < env {
                    lemma_home_kept(before, after, p as int, name);
                }
            },
            None => {},
        }
    }
}

} // verus!
