//! Expression syntax trees, and their mathematical model.
use crate::token::{copy_literal, copy_token, Literal, Token, TokenType};
use vstd::prelude::*;

verus! {

#[derive(Debug)]
pub enum Expr {
    Literal(Literal),
    Variable(Variable),
    Assign(Assign),
    Group(Group),
    Unary(Unary),
    Binary(Binary),
    Logic(Logic),
    Ternary(Ternary),
    Call(Call),
    Comma(Comma),
}

#[derive(Debug)]
pub struct Variable {
    pub name: Token,
}

#[derive(Debug)]
pub struct Assign {
    pub name: Token,
    pub value: Box<Expr>,
}

#[derive(Debug)]
pub struct Group {
    pub expr: Box<Expr>,
}

#[derive(Debug)]
pub struct Unary {
    pub operator: Token,
    pub expr: Box<Expr>,
}

#[derive(Debug)]
pub struct Binary {
    pub operator: Token,
    pub lhs: Box<Expr>,
    pub rhs: Box<Expr>,
}

/// `and` / `or`, which evaluate their right operand only when needed.
#[derive(Debug)]
pub struct Logic {
    pub operator: Token,
    pub lhs: Box<Expr>,
    pub rhs: Box<Expr>,
}

#[derive(Debug)]
pub struct Ternary {
    pub cond: Box<Expr>,
    /// The `?`, whose line type errors of the condition report.
    pub question: Token,
    pub lhs: Box<Expr>,
    pub rhs: Box<Expr>,
}

#[derive(Debug)]
pub struct Call {
    pub callee: Box<Expr>,
    pub paren: Token,
    pub arguments: Vec<Expr>,
}

/// A comma sequence of at least two expressions.
#[derive(Debug)]
pub struct Comma {
    pub internal: Vec<Expr>,
}

/// The model of a literal payload.
pub enum LiteralModel {
    Nil,
    Boolean(bool),
    Number(u64),
    String(Seq<char>),
}

/// The model of a token.
pub struct TokenModel {
    pub token_type: TokenType,
    pub literal: LiteralModel,
    pub lexeme: Seq<char>,
    pub line: usize,
}

/// The model of an expression: the same tree, with sequences for vectors and
/// character sequences for strings.
pub enum ExprModel {
    Literal(LiteralModel),
    Variable(TokenModel),
    Assign(TokenModel, Box<ExprModel>),
    Group(Box<ExprModel>),
    Unary(TokenModel, Box<ExprModel>),
    Binary(TokenModel, Box<ExprModel>, Box<ExprModel>),
    Logic(TokenModel, Box<ExprModel>, Box<ExprModel>),
    Ternary(Box<ExprModel>, TokenModel, Box<ExprModel>, Box<ExprModel>),
    Call(Box<ExprModel>, TokenModel, Seq<ExprModel>),
    Comma(Seq<ExprModel>),
}

pub open spec fn literal_model(l: Literal) -> LiteralModel {
    match l {
        Literal::Nil => LiteralModel::Nil,
        Literal::Boolean(b) => LiteralModel::Boolean(b),
        Literal::Number(n) => LiteralModel::Number(n.bits),
        Literal::String(s) => LiteralModel::String(s@),
    }
}

pub open spec fn token_model(t: Token) -> TokenModel {
    TokenModel {
        token_type: t.token_type,
        literal: literal_model(t.literal),
        lexeme: t.lexeme@,
        line: t.line,
    }
}

pub open spec fn tokens_model(ts: Seq<Token>) -> Seq<TokenModel> {
    ts.map_values(|t: Token| token_model(t))
}

pub open spec fn expr_model(e: Expr) -> ExprModel
    decreases e,
{
    match e {
        Expr::Literal(l) => ExprModel::Literal(literal_model(l)),
        Expr::Variable(v) => ExprModel::Variable(token_model(v.name)),
        Expr::Assign(a) => ExprModel::Assign(token_model(a.name), Box::new(expr_model(*a.value))),
        Expr::Group(g) => ExprModel::Group(Box::new(expr_model(*g.expr))),
        Expr::Unary(u) => ExprModel::Unary(token_model(u.operator), Box::new(expr_model(*u.expr))),
        Expr::Binary(b) => ExprModel::Binary(
            token_model(b.operator),
            Box::new(expr_model(*b.lhs)),
            Box::new(expr_model(*b.rhs)),
        ),
        Expr::Logic(b) => ExprModel::Logic(
            token_model(b.operator),
            Box::new(expr_model(*b.lhs)),
            Box::new(expr_model(*b.rhs)),
        ),
        Expr::Ternary(t) => ExprModel::Ternary(
            Box::new(expr_model(*t.cond)),
            token_model(t.question),
            Box::new(expr_model(*t.lhs)),
            Box::new(expr_model(*t.rhs)),
        ),
        Expr::Call(c) => ExprModel::Call(
            Box::new(expr_model(*c.callee)),
            token_model(c.paren),
            exprs_model(c.arguments@),
        ),
        Expr::Comma(c) => ExprModel::Comma(exprs_model(c.internal@)),
    }
}

pub open spec fn exprs_model(s: Seq<Expr>) -> Seq<ExprModel>
    decreases s,
{
    if s.len() == 0 {
        Seq::empty()
    } else {
        seq![expr_model(s[0])] + exprs_model(s.drop_first())
    }
}

pub proof fn lemma_exprs_model(s: Seq<Expr>)
    ensures
        exprs_model(s).len() == s.len(),
        forall|i: int| 0 <= i < s.len() ==> #[trigger] exprs_model(s)[i] == expr_model(s[i]),
    decreases s.len(),
{
    if s.len() > 0 {
        lemma_exprs_model(s.drop_first());
        assert forall|i: int| 0 <= i < s.len() implies #[trigger] exprs_model(s)[i] == expr_model(s[i]) by {
            if i > 0 {
                assert(s.drop_first()[i - 1] == s[i]);
            }
        }
    }
}

pub proof fn lemma_exprs_model_push(s: Seq<Expr>, e: Expr)
    ensures
        exprs_model(s.push(e)) == exprs_model(s).push(expr_model(e)),
{
    lemma_exprs_model(s);
    lemma_exprs_model(s.push(e));
    assert(exprs_model(s.push(e)) =~= exprs_model(s).push(expr_model(e)));
}

pub(crate) fn copy_exprs(v: &Vec<Expr>) -> (r: Vec<Expr>)
    ensures
        exprs_model(r@) == exprs_model(v@),
    decreases v, 0nat,
{
    let mut r: Vec<Expr> = Vec::new();
    let mut i: usize = 0;
    while i < v.len()
        invariant
            i <= v.len(),
            exprs_model(r@) == exprs_model(v@.subrange(0, i as int)),
        decreases v.len() - i,
    {
        let e = copy_expr(&v[i]);
        proof {
            lemma_exprs_model_push(r@, e);
            lemma_exprs_model_push(v@.subrange(0, i as int), v@[i as int]);
            assert(v@.subrange(0, i as int).push(v@[i as int]) =~= v@.subrange(0, i + 1));
        }
        r.push(e);
        i += 1;
    }
    assert(v@.subrange(0, i as int) =~= v@);
    r
}

/// A deep copy of an expression.
pub fn copy_expr(e: &Expr) -> (r: Expr)
    ensures
        expr_model(r) == expr_model(*e),
    decreases *e, 1nat,
{
    match e {
        Expr::Literal(l) => Expr::Literal(copy_literal(l)),
        Expr::Variable(v) => Expr::Variable(Variable { name: copy_token(&v.name) }),
        Expr::Assign(a) => Expr::Assign(Assign { name: copy_token(&a.name), value: Box::new(copy_expr(&a.value)) }),
        Expr::Group(g) => Expr::Group(Group { expr: Box::new(copy_expr(&g.expr)) }),
        Expr::Unary(u) => Expr::Unary(Unary { operator: copy_token(&u.operator), expr: Box::new(copy_expr(&u.expr)) }),
        Expr::Binary(b) => Expr::Binary(
            Binary { operator: copy_token(&b.operator), lhs: Box::new(copy_expr(&b.lhs)), rhs: Box::new(copy_expr(&b.rhs)) },
        ),
        Expr::Logic(b) => Expr::Logic(
            Logic { operator: copy_token(&b.operator), lhs: Box::new(copy_expr(&b.lhs)), rhs: Box::new(copy_expr(&b.rhs)) },
        ),
        Expr::Ternary(t) => Expr::Ternary(
            Ternary { cond: Box::new(copy_expr(&t.cond)), question: copy_token(&t.question), lhs: Box::new(copy_expr(&t.lhs)), rhs: Box::new(copy_expr(&t.rhs)) },
        ),
        Expr::Call(c) => Expr::Call(
            Call {
                callee: Box::new(copy_expr(&c.callee)),
                paren: copy_token(&c.paren),
                arguments: copy_exprs(&c.arguments),
            },
        ),
        Expr::Comma(c) => Expr::Comma(Comma { internal: copy_exprs(&c.internal) }),
    }
}

pub(crate) fn same_literal(a: &Literal, b: &Literal) -> (r: bool)
    ensures
        r == (literal_model(*a) == literal_model(*b)),
{
    match (a, b) {
        (Literal::Nil, Literal::Nil) => true,
        (Literal::Boolean(x), Literal::Boolean(y)) => *x == *y,
        (Literal::Number(x), Literal::Number(y)) => x.bits == y.bits,
        (Literal::String(x), Literal::String(y)) => *x == *y,
        _ => false,
    }
}

pub(crate) fn same_token(a: &Token, b: &Token) -> (r: bool)
    ensures
        r == (token_model(*a) == token_model(*b)),
{
    a.token_type == b.token_type && same_literal(&a.literal, &b.literal) && a.lexeme == b.lexeme
        && a.line == b.line
}

pub(crate) fn same_tokens(a: &Vec<Token>, b: &Vec<Token>) -> (r: bool)
    ensures
        r == (tokens_model(a@) == tokens_model(b@)),
{
    if a.len() != b.len() {
        assert(tokens_model(a@).len() != tokens_model(b@).len());
        return false;
    }
    let mut i: usize = 0;
    while i < a.len()
        invariant
            i <= a@.len(),
            a@.len() == b@.len(),
            forall|k: int| 0 <= k < i ==> token_model(#[trigger] a@[k]) == token_model(b@[k]),
        decreases a@.len() - i,
    {
        if !same_token(&a[i], &b[i]) {
            assert(tokens_model(a@)[i as int] != tokens_model(b@)[i as int]);
            return false;
        }
        i += 1;
    }
    assert(tokens_model(a@) =~= tokens_model(b@));
    true
}

pub(crate) fn same_exprs(a: &Vec<Expr>, b: &Vec<Expr>) -> (r: bool)
    ensures
        r == (exprs_model(a@) == exprs_model(b@)),
    decreases a, 0nat,
{
    proof {
        lemma_exprs_model(a@);
        lemma_exprs_model(b@);
    }
    if a.len() != b.len() {
        return false;
    }
    let mut i: usize = 0;
    while i < a.len()
        invariant
            i <= a@.len(),
            a@.len() == b@.len(),
            exprs_model(a@).len() == a@.len(),
            exprs_model(b@).len() == b@.len(),
            forall|k: int| 0 <= k < a@.len() ==> #[trigger] exprs_model(a@)[k] == expr_model(a@[k]),
            forall|k: int| 0 <= k < b@.len() ==> #[trigger] exprs_model(b@)[k] == expr_model(b@[k]),
            forall|k: int| 0 <= k < i ==> expr_model(#[trigger] a@[k]) == expr_model(b@[k]),
        decreases a@.len() - i,
    {
        if !same_expr(&a[i], &b[i]) {
            assert(exprs_model(a@)[i as int] != exprs_model(b@)[i as int]);
            return false;
        }
        i += 1;
    }
    assert(exprs_model(a@) =~= exprs_model(b@));
    true
}

/// Whether two expressions are the same tree.
pub fn same_expr(a: &Expr, b: &Expr) -> (r: bool)
    ensures
        r == (expr_model(*a) == expr_model(*b)),
    decreases *a, 1nat,
{
    match (a, b) {
        (Expr::Literal(x), Expr::Literal(y)) => same_literal(x, y),
        (Expr::Variable(x), Expr::Variable(y)) => same_token(&x.name, &y.name),
        (Expr::Assign(x), Expr::Assign(y)) => same_token(&x.name, &y.name) && same_expr(
            &x.value,
            &y.value,
        ),
        (Expr::Group(x), Expr::Group(y)) => same_expr(&x.expr, &y.expr),
        (Expr::Unary(x), Expr::Unary(y)) => same_token(&x.operator, &y.operator) && same_expr(
            &x.expr,
            &y.expr,
        ),
        (Expr::Binary(x), Expr::Binary(y)) => same_token(&x.operator, &y.operator) && same_expr(
            &x.lhs,
            &y.lhs,
        ) && same_expr(&x.rhs, &y.rhs),
        (Expr::Logic(x), Expr::Logic(y)) => same_token(&x.operator, &y.operator) && same_expr(
            &x.lhs,
            &y.lhs,
        ) && same_expr(&x.rhs, &y.rhs),
        (Expr::Ternary(x), Expr::Ternary(y)) => same_expr(&x.cond, &y.cond) && same_token(
            &x.question,
            &y.question,
        ) && same_expr(
            &x.lhs,
            &y.lhs,
        ) && same_expr(&x.rhs, &y.rhs),
        (Expr::Call(x), Expr::Call(y)) => same_expr(&x.callee, &y.callee) && same_token(
            &x.paren,
            &y.paren,
        ) && same_exprs(&x.arguments, &y.arguments),
        (Expr::Comma(x), Expr::Comma(y)) => same_exprs(&x.internal, &y.internal),
        _ => false,
    }
}

} // verus!
