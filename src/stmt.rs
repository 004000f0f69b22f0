//! Statement syntax trees, and their mathematical model.
use crate::expr::{
    copy_expr, expr_model, same_expr, same_token, same_tokens, token_model, tokens_model, Expr,
    ExprModel, TokenModel,
};
use crate::token::{copy_token, Token};
use vstd::prelude::*;

verus! {

#[derive(Debug)]
pub enum Stmt {
    Expr(ExprStmt),
    Print(PrintStmt),
    Var(VarStmt),
    Block(BlockStmt),
    If(IfStmt),
    While(WhileStmt),
    Fun(FunStmt),
    Break(BreakStmt),
    Return(ReturnStmt),
}

#[derive(Debug)]
pub struct ExprStmt {
    pub expr: Expr,
}

#[derive(Debug)]
pub struct PrintStmt {
    pub expr: Expr,
}

/// `var name = initializer;`, with a `nil` literal where no initializer was written.
#[derive(Debug)]
pub struct VarStmt {
    pub token: Token,
    pub initializer: Expr,
}

#[derive(Debug)]
pub struct BlockStmt {
    pub statements: Vec<Stmt>,
}

#[derive(Debug)]
pub struct IfStmt {
    pub cond: Expr,
    pub then_branch: Box<Stmt>,
    pub else_branch: Option<Box<Stmt>>,
}

/// A loop; `body` is `None` for `while (cond);`.
#[derive(Debug)]
pub struct WhileStmt {
    pub cond: Expr,
    pub body: Option<Box<Stmt>>,
}

#[derive(Debug)]
pub struct FunStmt {
    pub name: Token,
    pub parameters: Vec<Token>,
    pub block: Vec<Stmt>,
}

#[derive(Debug, Clone, Copy, PartialEq, Eq, Structural)]
pub struct BreakStmt;

#[derive(Debug)]
pub struct ReturnStmt {
    pub expr: Option<Expr>,
}

/// The model of a function declaration.
pub struct FunModel {
    pub name: TokenModel,
    pub params: Seq<TokenModel>,
    pub body: Seq<StmtModel>,
}

/// The model of a statement.
pub enum StmtModel {
    Expr(ExprModel),
    Print(ExprModel),
    Var(TokenModel, ExprModel),
    Block(Seq<StmtModel>),
    If(ExprModel, Box<StmtModel>, Option<Box<StmtModel>>),
    While(ExprModel, Option<Box<StmtModel>>),
    Fun(FunModel),
    Break,
    Return(Option<ExprModel>),
}

pub open spec fn fun_model(f: FunStmt) -> FunModel
    decreases f,
{
    FunModel {
        name: token_model(f.name),
        params: tokens_model(f.parameters@),
        body: stmts_model(f.block@),
    }
}

pub open spec fn stmt_model(s: Stmt) -> StmtModel
    decreases s,
{
    match s {
        Stmt::Expr(e) => StmtModel::Expr(expr_model(e.expr)),
        Stmt::Print(p) => StmtModel::Print(expr_model(p.expr)),
        Stmt::Var(v) => StmtModel::Var(token_model(v.token), expr_model(v.initializer)),
        Stmt::Block(b) => StmtModel::Block(stmts_model(b.statements@)),
        Stmt::If(i) => StmtModel::If(
            expr_model(i.cond),
            Box::new(stmt_model(*i.then_branch)),
            match i.else_branch {
                Some(b) => Some(Box::new(stmt_model(*b))),
                None => None,
            },
        ),
        Stmt::While(w) => StmtModel::While(
            expr_model(w.cond),
            match w.body {
                Some(b) => Some(Box::new(stmt_model(*b))),
                None => None,
            },
        ),
        Stmt::Fun(f) => StmtModel::Fun(fun_model(f)),
        Stmt::Break(_) => StmtModel::Break,
        Stmt::Return(r) => StmtModel::Return(
            match r.expr {
                Some(e) => Some(expr_model(e)),
                None => None,
            },
        ),
    }
}

pub open spec fn stmts_model(s: Seq<Stmt>) -> Seq<StmtModel>
    decreases s,
{
    if s.len() == 0 {
        Seq::empty()
    } else {
        seq![stmt_model(s[0])] + stmts_model(s.drop_first())
    }
}

pub proof fn lemma_stmts_model(s: Seq<Stmt>)
    ensures
        stmts_model(s).len() == s.len(),
        forall|i: int| 0 <= i < s.len() ==> #[trigger] stmts_model(s)[i] == stmt_model(s[i]),
    decreases s.len(),
{
    if s.len() > 0 {
        lemma_stmts_model(s.drop_first());
        assert forall|i: int| 0 <= i < s.len() implies #[trigger] stmts_model(s)[i] == stmt_model(s[i]) by {
            if i > 0 {
                assert(s.drop_first()[i - 1] == s[i]);
            }
        }
    }
}

pub proof fn lemma_stmts_model_push(s: Seq<Stmt>, e: Stmt)
    ensures
        stmts_model(s.push(e)) == stmts_model(s).push(stmt_model(e)),
{
    lemma_stmts_model(s);
    lemma_stmts_model(s.push(e));
    assert(stmts_model(s.push(e)) =~= stmts_model(s).push(stmt_model(e)));
}

pub(crate) fn copy_tokens(v: &Vec<Token>) -> (r: Vec<Token>)
    ensures
        r@ == v@,
{
    let mut r: Vec<Token> = Vec::new();
    let mut i: usize = 0;
    while i < v.len()
        invariant
            i <= v.len(),
            r@ == v@.subrange(0, i as int),
        decreases v.len() - i,
    {
        r.push(copy_token(&v[i]));
        i += 1;
        assert(r@ =~= v@.subrange(0, i as int));
    }
    assert(r@ =~= v@);
    r
}

pub(crate) fn copy_stmts(v: &Vec<Stmt>) -> (r: Vec<Stmt>)
    ensures
        stmts_model(r@) == stmts_model(v@),
    decreases v, 0nat,
{
    let mut r: Vec<Stmt> = Vec::new();
    let mut i: usize = 0;
    while i < v.len()
        invariant
            i <= v.len(),
            stmts_model(r@) == stmts_model(v@.subrange(0, i as int)),
        decreases v.len() - i,
    {
        let s = copy_stmt(&v[i]);
        proof {
            lemma_stmts_model_push(r@, s);
            lemma_stmts_model_push(v@.subrange(0, i as int), v@[i as int]);
            assert(v@.subrange(0, i as int).push(v@[i as int]) =~= v@.subrange(0, i + 1));
        }
        r.push(s);
        i += 1;
    }
    assert(v@.subrange(0, i as int) =~= v@);
    r
}

/// A deep copy of a function declaration.
pub fn copy_fun(f: &FunStmt) -> (r: FunStmt)
    ensures
        fun_model(r) == fun_model(*f),
    decreases *f, 1nat,
{
    FunStmt {
        name: copy_token(&f.name),
        parameters: copy_tokens(&f.parameters),
        block: copy_stmts(&f.block),
    }
}

/// A deep copy of a statement.
pub fn copy_stmt(s: &Stmt) -> (r: Stmt)
    ensures
        stmt_model(r) == stmt_model(*s),
    decreases *s, 2nat,
{
    match s {
        Stmt::Expr(e) => Stmt::Expr(ExprStmt { expr: copy_expr(&e.expr) }),
        Stmt::Print(p) => Stmt::Print(PrintStmt { expr: copy_expr(&p.expr) }),
        Stmt::Var(v) => Stmt::Var(
            VarStmt { token: copy_token(&v.token), initializer: copy_expr(&v.initializer) },
        ),
        Stmt::Block(b) => Stmt::Block(BlockStmt { statements: copy_stmts(&b.statements) }),
        Stmt::If(i) => {
            let else_branch = match &i.else_branch {
                Some(b) => Some(Box::new(copy_stmt(b))),
                None => None,
            };
            Stmt::If(
                IfStmt {
                    cond: copy_expr(&i.cond),
                    then_branch: Box::new(copy_stmt(&i.then_branch)),
                    else_branch,
                },
            )
        },
        Stmt::While(w) => {
            let body = match &w.body {
                Some(b) => Some(Box::new(copy_stmt(b))),
                None => None,
            };
            Stmt::While(WhileStmt { cond: copy_expr(&w.cond), body })
        },
        Stmt::Fun(f) => Stmt::Fun(copy_fun(f)),
        Stmt::Break(_) => Stmt::Break(BreakStmt),
        Stmt::Return(r) => {
            let expr = match &r.expr {
                Some(e) => Some(copy_expr(e)),
                None => None,
            };
            Stmt::Return(ReturnStmt { expr })
        },
    }
}

fn same_stmts(a: &Vec<Stmt>, b: &Vec<Stmt>) -> (r: bool)
    ensures
        r == (stmts_model(a@) == stmts_model(b@)),
    decreases a, 0nat,
{
    proof {
        lemma_stmts_model(a@);
        lemma_stmts_model(b@);
    }
    if a.len() != b.len() {
        return false;
    }
    let mut i: usize = 0;
    while i < a.len()
        invariant
            i <= a@.len(),
            a@.len() == b@.len(),
            stmts_model(a@).len() == a@.len(),
            stmts_model(b@).len() == b@.len(),
            forall|k: int| 0 <= k < a@.len() ==> #[trigger] stmts_model(a@)[k] == stmt_model(a@[k]),
            forall|k: int| 0 <= k < b@.len() ==> #[trigger] stmts_model(b@)[k] == stmt_model(b@[k]),
            forall|k: int| 0 <= k < i ==> stmt_model(#[trigger] a@[k]) == stmt_model(b@[k]),
        decreases a@.len() - i,
    {
        if !same_stmt(&a[i], &b[i]) {
            assert(stmts_model(a@)[i as int] != stmts_model(b@)[i as int]);
            return false;
        }
        i += 1;
    }
    assert(stmts_model(a@) =~= stmts_model(b@));
    true
}

/// Whether two function declarations are the same.
pub fn same_fun(a: &FunStmt, b: &FunStmt) -> (r: bool)
    ensures
        r == (fun_model(*a) == fun_model(*b)),
    decreases *a, 1nat,
{
    same_token(&a.name, &b.name) && same_tokens(&a.parameters, &b.parameters) && same_stmts(
        &a.block,
        &b.block,
    )
}

fn same_opt_stmt(a: &Option<Box<Stmt>>, b: &Option<Box<Stmt>>) -> (r: bool)
    ensures
        r == (match (*a, *b) {
            (Some(x), Some(y)) => stmt_model(*x) == stmt_model(*y),
            (None, None) => true,
            _ => false,
        }),
    decreases *a, 1nat,
{
    match (a, b) {
        (Some(x), Some(y)) => same_stmt(x, y),
        (None, None) => true,
        _ => false,
    }
}

/// Whether two statements are the same tree.
pub fn same_stmt(a: &Stmt, b: &Stmt) -> (r: bool)
    ensures
        r == (stmt_model(*a) == stmt_model(*b)),
    decreases *a, 2nat,
{
    match (a, b) {
        (Stmt::Expr(x), Stmt::Expr(y)) => same_expr(&x.expr, &y.expr),
        (Stmt::Print(x), Stmt::Print(y)) => same_expr(&x.expr, &y.expr),
        (Stmt::Var(x), Stmt::Var(y)) => same_token(&x.token, &y.token) && same_expr(
            &x.initializer,
            &y.initializer,
        ),
        (Stmt::Block(x), Stmt::Block(y)) => same_stmts(&x.statements, &y.statements),
        (Stmt::If(x), Stmt::If(y)) => {
            let r = same_expr(&x.cond, &y.cond) && same_stmt(&x.then_branch, &y.then_branch)
                && same_opt_stmt(&x.else_branch, &y.else_branch);
            proof {
                if stmt_model(*a) == stmt_model(*b) {
                    assert(match (x.else_branch, y.else_branch) {
                        (Some(p), Some(q)) => stmt_model(*p) == stmt_model(*q),
                        (None, None) => true,
                        _ => false,
                    });
                }
            }
            r
        },
        (Stmt::While(x), Stmt::While(y)) => {
            let r = same_expr(&x.cond, &y.cond) && same_opt_stmt(&x.body, &y.body);
            proof {
                if stmt_model(*a) == stmt_model(*b) {
                    assert(match (x.body, y.body) {
                        (Some(p), Some(q)) => stmt_model(*p) == stmt_model(*q),
                        (None, None) => true,
                        _ => false,
                    });
                }
            }
            r
        },
        (Stmt::Fun(x), Stmt::Fun(y)) => same_fun(x, y),
        (Stmt::Break(_), Stmt::Break(_)) => true,
        (Stmt::Return(x), Stmt::Return(y)) => match (&x.expr, &y.expr) {
            (Some(p), Some(q)) => same_expr(p, q),
            (None, None) => true,
            _ => false,
        },
        _ => false,
    }
}

} // verus!
