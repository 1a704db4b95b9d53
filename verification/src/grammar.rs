//! The syntax tree that the parser builds and the interpreter walks.

use crate::token::{Token, TokenView, tokens_view};
use vstd::prelude::*;

verus! {

/// A literal as written in the source.
#[derive(Debug)]
pub enum Literal {
    Boolean(bool),
    /// A number, kept as the decimal text that the source holds.
    Number(String),
    Str(String),
    Null,
}

/// An expression.
#[derive(Debug)]
pub enum Expression {
    Literal(Literal),
    Var(Token),
    Assignment { ident: Token, expr: Box<Expression> },
    Unary { operator: Token, expr: Box<Expression> },
    Binary { left: Box<Expression>, operator: Token, right: Box<Expression> },
    Logical { left: Box<Expression>, operator: Token, right: Box<Expression> },
    Range { left: Box<Expression>, right: Box<Expression> },
    Grouping(Box<Expression>),
    Call { callee: Box<Expression>, paren_token: Token, args: Vec<Expression> },
}

/// A statement.
#[derive(Debug)]
pub enum Statement {
    ExprStmt(Expression),
    BlockStmt(Vec<Declaration>),
    IfStmt { condition: Expression, if_branch: Box<Statement>, else_branch: Option<Box<Statement>> },
    WhileStmt { condition: Expression, body: Box<Statement> },
    ReturnStmt { return_token: Token, expr: Option<Expression> },
}

/// A function declaration: its name, the names of its parameters, and its
/// body, which is a block.
#[derive(Debug)]
pub struct FnDecl {
    pub ident: Token,
    pub params: Vec<Token>,
    pub body: Statement,
}

/// A declaration: a statement, or what introduces a name.
#[derive(Debug)]
pub enum Declaration {
    StmtDecl(Statement),
    LetDecl { ident: Token, init: Option<Expression> },
    FnDecl(FnDecl),
}

/// A literal as a mathematical value.
pub enum LiteralView {
    Boolean(bool),
    Number(Seq<char>),
    Str(Seq<char>),
    Null,
}

/// An expression as a mathematical value.
pub enum ExprView {
    Literal(LiteralView),
    Var(TokenView),
    Assignment { ident: TokenView, expr: Box<ExprView> },
    Unary { operator: TokenView, expr: Box<ExprView> },
    Binary { left: Box<ExprView>, operator: TokenView, right: Box<ExprView> },
    Logical { left: Box<ExprView>, operator: TokenView, right: Box<ExprView> },
    Range { left: Box<ExprView>, right: Box<ExprView> },
    Grouping(Box<ExprView>),
    Call { callee: Box<ExprView>, paren_token: TokenView, args: Seq<ExprView> },
}

/// A statement as a mathematical value.
pub enum StmtView {
    ExprStmt(ExprView),
    BlockStmt(Seq<DeclView>),
    IfStmt { condition: ExprView, if_branch: Box<StmtView>, else_branch: Option<Box<StmtView>> },
    WhileStmt { condition: ExprView, body: Box<StmtView> },
    ReturnStmt { return_token: TokenView, expr: Option<ExprView> },
}

/// A function declaration as a mathematical value.
pub struct FnDeclView {
    pub ident: TokenView,
    pub params: Seq<TokenView>,
    pub body: StmtView,
}

/// A declaration as a mathematical value.
pub enum DeclView {
    StmtDecl(StmtView),
    LetDecl { ident: TokenView, init: Option<ExprView> },
    FnDecl(FnDeclView),
}

impl View for Literal {
    type V = LiteralView;

    open spec fn view(&self) -> LiteralView {
        match self {
            Literal::Boolean(b) => LiteralView::Boolean(*b),
            Literal::Number(text) => LiteralView::Number(text@),
            Literal::Str(text) => LiteralView::Str(text@),
            Literal::Null => LiteralView::Null,
        }
    }
}

impl Expression {
    /// The expression as a mathematical value.
    #[verifier::opaque]
    pub open spec fn model(&self) -> ExprView
        decreases self,
    {
        match self {
            Expression::Literal(literal) => ExprView::Literal(literal@),
            Expression::Var(token) => ExprView::Var(token@),
            Expression::Assignment { ident, expr } => ExprView::Assignment {
                ident: ident@,
                expr: Box::new(expr.model()),
            },
            Expression::Unary { operator, expr } => ExprView::Unary {
                operator: operator@,
                expr: Box::new(expr.model()),
            },
            Expression::Binary { left, operator, right } => ExprView::Binary {
                left: Box::new(left.model()),
                operator: operator@,
                right: Box::new(right.model()),
            },
            Expression::Logical { left, operator, right } => ExprView::Logical {
                left: Box::new(left.model()),
                operator: operator@,
                right: Box::new(right.model()),
            },
            Expression::Range { left, right } => ExprView::Range {
                left: Box::new(left.model()),
                right: Box::new(right.model()),
            },
            Expression::Grouping(inner) => ExprView::Grouping(Box::new(inner.model())),
            Expression::Call { callee, paren_token, args } => ExprView::Call {
                callee: Box::new(callee.model()),
                paren_token: paren_token@,
                args: Seq::new(
                    args@.len(),
                    |i: int|
                        if 0 <= i < args@.len() {
                            args@[i].model()
                        } else {
                            ExprView::Literal(LiteralView::Null)
                        },
                ),
            },
        }
    }
}

impl View for Expression {
    type V = ExprView;

    open spec fn view(&self) -> ExprView {
        self.model()
    }
}

impl Statement {
    /// The statement as a mathematical value.
    #[verifier::opaque]
    pub open spec fn model(&self) -> StmtView
        decreases self,
    {
        match self {
            Statement::ExprStmt(expr) => StmtView::ExprStmt(expr@),
            Statement::BlockStmt(decls) => StmtView::BlockStmt(
                Seq::new(
                    decls@.len(),
                    |i: int|
                        if 0 <= i < decls@.len() {
                            decls@[i].model()
                        } else {
                            DeclView::StmtDecl(StmtView::BlockStmt(Seq::empty()))
                        },
                ),
            ),
            Statement::IfStmt { condition, if_branch, else_branch } => StmtView::IfStmt {
                condition: condition@,
                if_branch: Box::new(if_branch.model()),
                else_branch: match else_branch {
                    Some(branch) => Some(Box::new(branch.model())),
                    None => None,
                },
            },
            Statement::WhileStmt { condition, body } => StmtView::WhileStmt {
                condition: condition@,
                body: Box::new(body.model()),
            },
            Statement::ReturnStmt { return_token, expr } => StmtView::ReturnStmt {
                return_token: return_token@,
                expr: match expr {
                    Some(e) => Some(e@),
                    None => None,
                },
            },
        }
    }
}

impl View for Statement {
    type V = StmtView;

    open spec fn view(&self) -> StmtView {
        self.model()
    }
}

impl FnDecl {
    /// The declaration as a mathematical value.
    #[verifier::opaque]
    pub open spec fn model(&self) -> FnDeclView
        decreases self,
    {
        FnDeclView {
            ident: self.ident@,
            params: tokens_view(self.params@),
            body: self.body.model(),
        }
    }
}

impl View for FnDecl {
    type V = FnDeclView;

    open spec fn view(&self) -> FnDeclView {
        self.model()
    }
}

impl Declaration {
    /// The declaration as a mathematical value.
    #[verifier::opaque]
    pub open spec fn model(&self) -> DeclView
        decreases self,
    {
        match self {
            Declaration::StmtDecl(stmt) => DeclView::StmtDecl(stmt.model()),
            Declaration::LetDecl { ident, init } => DeclView::LetDecl {
                ident: ident@,
                init: match init {
                    Some(e) => Some(e@),
                    None => None,
                },
            },
            Declaration::FnDecl(decl) => DeclView::FnDecl(decl.model()),
        }
    }
}

impl View for Declaration {
    type V = DeclView;

    open spec fn view(&self) -> DeclView {
        self.model()
    }
}

/// The views of a list of expressions, in order.
pub open spec fn exprs_view(exprs: Seq<Expression>) -> Seq<ExprView> {
    Seq::new(exprs.len(), |i: int| exprs[i]@)
}

/// The views of a list of declarations, in order.
pub open spec fn decls_view(decls: Seq<Declaration>) -> Seq<DeclView> {
    Seq::new(decls.len(), |i: int| decls[i]@)
}

impl Clone for Literal {
    fn clone(&self) -> (r: Self)
        ensures
            r@ == self@,
    {
        match self {
            Literal::Boolean(b) => Literal::Boolean(*b),
            Literal::Number(text) => Literal::Number(text.clone()),
            Literal::Str(text) => Literal::Str(text.clone()),
            Literal::Null => Literal::Null,
        }
    }
}

/// A copy of a list of tokens.
pub fn clone_tokens(tokens: &Vec<Token>) -> (r: Vec<Token>)
    ensures
        tokens_view(r@) == tokens_view(tokens@),
{
    let mut out: Vec<Token> = Vec::new();
    let mut i: usize = 0;
    while i < tokens.len()
        invariant
            i <= tokens.len(),
            out@.len() == i,
            forall|j: int| 0 <= j < i ==> out@[j]@ == tokens@[j]@,
        decreases tokens.len() - i,
    {
        out.push(tokens[i].clone());
        i = i + 1;
    }
    out
}

impl Expression {
    /// A copy of the expression.
    pub fn copy(&self) -> (r: Expression)
        ensures
            r@ == self@,
        decreases self,
    {
        proof {
            reveal(Expression::model);
        }
        match self {
            Expression::Literal(literal) => Expression::Literal(literal.clone()),
            Expression::Var(token) => Expression::Var(token.clone()),
            Expression::Assignment { ident, expr } => Expression::Assignment {
                ident: ident.clone(),
                expr: Box::new(expr.copy()),
            },
            Expression::Unary { operator, expr } => Expression::Unary {
                operator: operator.clone(),
                expr: Box::new(expr.copy()),
            },
            Expression::Binary { left, operator, right } => Expression::Binary {
                left: Box::new(left.copy()),
                operator: operator.clone(),
                right: Box::new(right.copy()),
            },
            Expression::Logical { left, operator, right } => Expression::Logical {
                left: Box::new(left.copy()),
                operator: operator.clone(),
                right: Box::new(right.copy()),
            },
            Expression::Range { left, right } => Expression::Range {
                left: Box::new(left.copy()),
                right: Box::new(right.copy()),
            },
            Expression::Grouping(inner) => Expression::Grouping(Box::new(inner.copy())),
            Expression::Call { callee, paren_token, args } => {
                let mut out: Vec<Expression> = Vec::new();
                let mut i: usize = 0;
                while i < args.len()
                    invariant
                        i <= args.len(),
                        out@.len() == i,
                        forall|j: int| 0 <= j < i ==> out@[j]@ == args@[j]@,
                        self matches Expression::Call { args: a, .. } && a == args,
                    decreases args.len() - i,
                {
                    out.push(args[i].copy());
                    i = i + 1;
                }
                let r = Expression::Call {
                    callee: Box::new(callee.copy()),
                    paren_token: paren_token.clone(),
                    args: out,
                };
                assert(r@->Call_args =~= self@->Call_args);
                r
            },
        }
    }
}

impl Clone for Expression {
    fn clone(&self) -> (r: Self)
        ensures
            r@ == self@,
    {
        self.copy()
    }
}

impl Statement {
    /// A copy of the statement.
    pub fn copy(&self) -> (r: Statement)
        ensures
            r@ == self@,
        decreases self,
    {
        proof {
            reveal(Statement::model);
            reveal(Declaration::model);
        }
        match self {
            Statement::ExprStmt(expr) => Statement::ExprStmt(expr.copy()),
            Statement::BlockStmt(decls) => {
                let mut out: Vec<Declaration> = Vec::new();
                let mut i: usize = 0;
                while i < decls.len()
                    invariant
                        i <= decls.len(),
                        out@.len() == i,
                        forall|j: int| 0 <= j < i ==> out@[j]@ == decls@[j]@,
                        self matches Statement::BlockStmt(d) && d == decls,
                    decreases decls.len() - i,
                {
                    out.push(decls[i].copy());
                    i = i + 1;
                }
                let r = Statement::BlockStmt(out);
                assert(r@->BlockStmt_0 =~= self@->BlockStmt_0);
                r
            },
            Statement::IfStmt { condition, if_branch, else_branch } => Statement::IfStmt {
                condition: condition.copy(),
                if_branch: Box::new(if_branch.copy()),
                else_branch: match else_branch {
                    Some(branch) => Some(Box::new(branch.copy())),
                    None => None,
                },
            },
            Statement::WhileStmt { condition, body } => Statement::WhileStmt {
                condition: condition.copy(),
                body: Box::new(body.copy()),
            },
            Statement::ReturnStmt { return_token, expr } => Statement::ReturnStmt {
                return_token: return_token.clone(),
                expr: match expr {
                    Some(e) => Some(e.copy()),
                    None => None,
                },
            },
        }
    }
}

impl Clone for Statement {
    fn clone(&self) -> (r: Self)
        ensures
            r@ == self@,
    {
        self.copy()
    }
}

impl FnDecl {
    /// A copy of the declaration.
    pub fn copy(&self) -> (r: FnDecl)
        ensures
            r@ == self@,
        decreases self,
    {
        proof {
            reveal(Statement::model);
            reveal(FnDecl::model);
        }
        FnDecl {
            ident: self.ident.clone(),
            params: clone_tokens(&self.params),
            body: self.body.copy(),
        }
    }
}

impl Clone for FnDecl {
    fn clone(&self) -> (r: Self)
        ensures
            r@ == self@,
    {
        self.copy()
    }
}

impl Declaration {
    /// A copy of the declaration.
    pub fn copy(&self) -> (r: Declaration)
        ensures
            r@ == self@,
        decreases self,
    {
        proof {
            reveal(Statement::model);
            reveal(FnDecl::model);
            reveal(Declaration::model);
        }
        match self {
            Declaration::StmtDecl(stmt) => Declaration::StmtDecl(stmt.copy()),
            Declaration::LetDecl { ident, init } => Declaration::LetDecl {
                ident: ident.clone(),
                init: match init {
                    Some(e) => Some(e.copy()),
                    None => None,
                },
            },
            Declaration::FnDecl(decl) => Declaration::FnDecl(decl.copy()),
        }
    }
}

impl Clone for Declaration {
    fn clone(&self) -> (r: Self)
        ensures
            r@ == self@,
    {
        self.copy()
    }
}

} // verus!
