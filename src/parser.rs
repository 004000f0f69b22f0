//! The recursive-descent parser: each method reads one rule of the grammar
//! from the current position and agrees with its spec function in `grammar`.
use crate::expr::{
    exprs_model, expr_model, lemma_exprs_model, lemma_exprs_model_push, token_model, tokens_model,
    Assign, Binary, Call, Expr, ExprModel, Group, Logic, Ternary, TokenModel, Unary, Variable,
};
use crate::grammar::{
    assignment, binary, block_rest, call, call_arguments, declaration, desugar_for, expected,
    expression, expression_stmt, finish_call, for_stmt, fun_declaration, if_stmt, is_level_op,
    kind, operand, params_rest, primary, program, program_rest, return_stmt, statement, ternary,
    unary, var_declaration, while_stmt, GrammerError, Parsed, MAX_ARITY,
};
use crate::stmt::{
    lemma_stmts_model, lemma_stmts_model_push, stmt_model, stmts_model, BlockStmt, BreakStmt,
    ExprStmt, FunStmt, IfStmt, PrintStmt, ReturnStmt, Stmt, StmtModel, VarStmt, WhileStmt,
};
use crate::token::{copy_token, Literal, Token, TokenType};
use vstd::prelude::*;

verus! {

pub open spec fn expr_agrees(r: Result<Expr, GrammerError>, q: int, s: Parsed<ExprModel>) -> bool {
    match r {
        Ok(e) => s == Ok::<(ExprModel, int), GrammerError>((expr_model(e), q)),
        Err(x) => s == Err::<(ExprModel, int), GrammerError>(x),
    }
}

pub open spec fn stmt_agrees(r: Result<Stmt, GrammerError>, q: int, s: Parsed<StmtModel>) -> bool {
    match r {
        Ok(e) => s == Ok::<(StmtModel, int), GrammerError>((stmt_model(e), q)),
        Err(x) => s == Err::<(StmtModel, int), GrammerError>(x),
    }
}

pub open spec fn stmts_agree(
    r: Result<Vec<Stmt>, GrammerError>,
    q: int,
    s: Parsed<Seq<StmtModel>>,
) -> bool {
    match r {
        Ok(v) => s == Ok::<(Seq<StmtModel>, int), GrammerError>((stmts_model(v@), q)),
        Err(x) => s == Err::<(Seq<StmtModel>, int), GrammerError>(x),
    }
}

pub open spec fn opt_expr_model(e: Option<Expr>) -> Option<ExprModel> {
    match e {
        Some(e) => Some(expr_model(e)),
        None => None,
    }
}

pub open spec fn opt_stmt_model(s: Option<Stmt>) -> Option<StmtModel> {
    match s {
        Some(s) => Some(stmt_model(s)),
        None => None,
    }
}

/// A token stream as the lexer hands it over: it ends with an EOF token.
pub open spec fn well_formed_stream(tokens: Seq<Token>) -> bool {
    tokens.len() > 0 && tokens.last().token_type == TokenType::Eof
}

/// `r` is what the grammar gives for the whole stream `tokens`.
pub open spec fn parsed(tokens: Seq<Token>, r: Result<Vec<Stmt>, GrammerError>) -> bool {
    program(tokens_model(tokens)) == outcome_model(r)
}

pub open spec fn outcome_model(r: Result<Vec<Stmt>, GrammerError>) -> Result<
    Seq<StmtModel>,
    GrammerError,
> {
    match r {
        Ok(v) => Ok(stmts_model(v@)),
        Err(x) => Err(x),
    }
}

pub struct Parser {
    tokens: Vec<Token>,
    current: usize,
}

spec fn kept(a: Parser, b: Parser) -> bool {
    b.wf() && b.tokens@ == a.tokens@ && a.current <= b.current
}

/// `{ init; while (cond) { body; inc; } }`, with the parts that are there.
fn desugar(init: Option<Stmt>, cond: Option<Expr>, inc: Option<Expr>, body: Option<Stmt>) -> (r:
    Stmt)
    ensures
        stmt_model(r) == desugar_for(
            opt_stmt_model(init),
            opt_expr_model(cond),
            opt_expr_model(inc),
            opt_stmt_model(body),
        ),
{
    let mut parts: Vec<Stmt> = Vec::new();
    let ghost mut pm: Seq<StmtModel> = seq![];
    assert(stmts_model(parts@) =~= pm);
    match body {
        Some(b) => {
            proof {
                lemma_stmts_model_push(parts@, b);
                pm = seq![stmt_model(b)];
            }
            parts.push(b);
        },
        None => {},
    }
    assert(stmts_model(parts@) == pm);
    match inc {
        Some(i) => {
            let s = Stmt::Expr(ExprStmt { expr: i });
            proof {
                lemma_stmts_model_push(parts@, s);
                pm = pm.push(stmt_model(s));
            }
            parts.push(s);
        },
        None => {},
    }
    assert(stmts_model(parts@) == pm);
    proof {
        lemma_stmts_model(parts@);
    }
    let looped = if parts.len() == 0 {
        None
    } else {
        Some(Box::new(Stmt::Block(BlockStmt { statements: parts })))
    };
    let cond = match cond {
        Some(c) => c,
        None => Expr::Literal(Literal::Boolean(true)),
    };
    let ghost looped_model: Option<Box<StmtModel>> = if pm.len() == 0 {
        None
    } else {
        Some(Box::new(StmtModel::Block(pm)))
    };
    assert(match looped {
        Some(b) => Some(Box::new(stmt_model(*b))),
        None => None,
    } == looped_model);
    let w = Stmt::While(WhileStmt { cond, body: looped });
    assert(stmt_model(w) == StmtModel::While(expr_model(cond), looped_model));
    match init {
        Some(i) => {
            let mut v: Vec<Stmt> = Vec::new();
            proof {
                lemma_stmts_model_push(v@, i);
                assert(stmts_model(v@) =~= seq![]);
            }
            v.push(i);
            proof {
                lemma_stmts_model_push(v@, w);
                assert(seq![stmt_model(i), stmt_model(w)] =~= seq![stmt_model(i)].push(stmt_model(w)));
            }
            v.push(w);
            assert(stmts_model(v@) == seq![stmt_model(i), stmt_model(w)]);
            Stmt::Block(BlockStmt { statements: v })
        },
        None => w,
    }
}

fn is_op(level: usize, t: TokenType) -> (r: bool)
    ensures
        r == is_level_op(level as int, t),
{
    if level == 0 {
        t == TokenType::Or
    } else if level == 1 {
        t == TokenType::And
    } else if level == 2 {
        t == TokenType::BangEqual || t == TokenType::EqualEqual
    } else if level == 3 {
        t == TokenType::Greater || t == TokenType::GreaterEqual || t == TokenType::Less || t
            == TokenType::LessEqual
    } else if level == 4 {
        t == TokenType::Minus || t == TokenType::Plus
    } else {
        t == TokenType::Slash || t == TokenType::Star
    }
}

impl Parser {
    spec fn wf(&self) -> bool {
        well_formed_stream(self.tokens@) && self.current < self.tokens@.len()
    }

    spec fn toks(&self) -> Seq<TokenModel> {
        tokens_model(self.tokens@)
    }

    spec fn pos(&self) -> int {
        self.current as int
    }

    pub fn new() -> (r: Parser) {
        Parser { tokens: Vec::new(), current: 0 }
    }

    fn peek_type(&self) -> (r: TokenType)
        requires
            self.wf(),
        ensures
            r == kind(self.toks(), self.pos()),
    {
        self.tokens[self.current].token_type
    }

    fn line(&self) -> (r: usize)
        requires
            self.wf(),
        ensures
            r == self.toks()[self.pos()].line,
    {
        self.tokens[self.current].line
    }

    fn advance(&mut self) -> (r: Token)
        requires
            old(self).wf(),
            kind(old(self).toks(), old(self).pos()) != TokenType::Eof,
        ensures
            kept(*old(self), *final(self)),
            final(self).current == old(self).current + 1,
            token_model(r) == old(self).toks()[old(self).pos()],
    {
        let t = copy_token(&self.tokens[self.current]);
        proof {
            if self.current + 1 >= self.tokens.len() {
                assert(self.tokens@.last() == self.tokens@[self.current as int]);
            }
        }
        self.current = self.current + 1;
        t
    }

    fn expect(&mut self, t: TokenType) -> (r: Result<Token, GrammerError>)
        requires
            old(self).wf(),
            t != TokenType::Eof,
        ensures
            kept(*old(self), *final(self)),
            kind(old(self).toks(), old(self).pos()) == t ==> (r matches Ok(tok) && token_model(tok)
                == old(self).toks()[old(self).pos()] && final(self).current == old(self).current + 1),
            kind(old(self).toks(), old(self).pos()) != t ==> r == Err::<Token, GrammerError>(
                expected(old(self).toks(), old(self).pos(), t),
            ),
    {
        if self.peek_type() == t {
            Ok(self.advance())
        } else {
            Err(GrammerError::Expected { expected: t, line: self.line() })
        }
    }

    fn expression(&mut self) -> (r: Result<Expr, GrammerError>)
        requires
            old(self).wf(),
        ensures
            kept(*old(self), *final(self)),
            expr_agrees(r, final(self).pos(), expression(old(self).toks(), old(self).pos())),
            r is Ok ==> old(self).current < final(self).current,
        decreases old(self).tokens@.len() + 2 - old(self).current, 100int,
    {
        let ghost t0 = self.tokens@;
        let ghost toks = self.toks();
        let ghost p = self.pos();
        let first = match self.ternary() {
            Err(e) => return Err(e),
            Ok(e) => e,
        };
        if self.peek_type() != TokenType::Comma {
            return Ok(first);
        }
        self.advance();
        let mut items: Vec<Expr> = Vec::new();
        proof {
            lemma_exprs_model_push(items@, first);
        }
        items.push(first);
        loop
            invariant
                self.wf(),
                self.tokens@ == t0,
                t0 == old(self).tokens@,
                p == old(self).pos(),
                toks == tokens_model(t0),
                p < self.pos(),
                items@.len() > 0,
                expression(toks, p) == (match crate::grammar::comma_rest(
                    toks,
                    self.pos(),
                    exprs_model(items@),
                ) {
                    Err(e) => Err(e),
                    Ok((items, r)) => Ok((ExprModel::Comma(items), r)),
                }),
            decreases toks.len() - self.pos(),
        {
            let e = match self.ternary() {
                Err(e) => return Err(e),
                Ok(e) => e,
            };
            proof {
                lemma_exprs_model_push(items@, e);
            }
            items.push(e);
            if self.peek_type() != TokenType::Comma {
                return Ok(Expr::Comma(crate::expr::Comma { internal: items }));
            }
            self.advance();
        }
    }

    fn ternary(&mut self) -> (r: Result<Expr, GrammerError>)
        requires
            old(self).wf(),
        ensures
            kept(*old(self), *final(self)),
            expr_agrees(r, final(self).pos(), ternary(old(self).toks(), old(self).pos())),
            r is Ok ==> old(self).current < final(self).current,
        decreases old(self).tokens@.len() + 2 - old(self).current, 98int,
    {
        let ghost t0 = self.tokens@;
        let ghost toks = self.toks();
        let ghost p = self.pos();
        let mut expr = match self.assignment() {
            Err(e) => return Err(e),
            Ok(e) => e,
        };
        loop
            invariant
                self.wf(),
                self.tokens@ == t0,
                t0 == old(self).tokens@,
                p == old(self).pos(),
                toks == tokens_model(t0),
                p < self.pos(),
                ternary(toks, p) == crate::grammar::ternary_tail(toks, self.pos(), expr_model(expr)),
            decreases toks.len() - self.pos(),
        {
            if self.peek_type() != TokenType::QuestionMark {
                return Ok(expr);
            }
            let question = self.advance();
            let lhs = match self.expression() {
                Err(e) => return Err(e),
                Ok(e) => e,
            };
            match self.expect(TokenType::Colon) {
                Err(e) => return Err(e),
                Ok(_) => {},
            }
            let rhs = match self.expression() {
                Err(e) => return Err(e),
                Ok(e) => e,
            };
            expr = Expr::Ternary(Ternary { cond: Box::new(expr), question, lhs: Box::new(lhs), rhs: Box::new(rhs) });
        }
    }

    fn assignment(&mut self) -> (r: Result<Expr, GrammerError>)
        requires
            old(self).wf(),
        ensures
            kept(*old(self), *final(self)),
            expr_agrees(r, final(self).pos(), assignment(old(self).toks(), old(self).pos())),
            r is Ok ==> old(self).current < final(self).current,
        decreases old(self).tokens@.len() + 2 - old(self).current, 96int,
    {
        let lhs = match self.binary(0) {
            Err(e) => return Err(e),
            Ok(e) => e,
        };
        if self.peek_type() != TokenType::Equal {
            return Ok(lhs);
        }
        let line = self.line();
        self.advance();
        let value = match self.assignment() {
            Err(e) => return Err(e),
            Ok(e) => e,
        };
        match lhs {
            Expr::Variable(v) => Ok(Expr::Assign(Assign { name: v.name, value: Box::new(value) })),
            _ => Err(GrammerError::InvalidAssignmentTarget { line }),
        }
    }

    fn binary(&mut self, level: usize) -> (r: Result<Expr, GrammerError>)
        requires
            old(self).wf(),
            level <= 5,
        ensures
            kept(*old(self), *final(self)),
            expr_agrees(r, final(self).pos(), binary(old(self).toks(), old(self).pos(), level as int)),
            r is Ok ==> old(self).current < final(self).current,
        decreases old(self).tokens@.len() + 2 - old(self).current, 90 - 2 * level,
    {
        let ghost t0 = self.tokens@;
        let ghost toks = self.toks();
        let ghost p = self.pos();
        let mut expr = match self.operand(level) {
            Err(e) => return Err(e),
            Ok(e) => e,
        };
        loop
            invariant
                self.wf(),
                self.tokens@ == t0,
                t0 == old(self).tokens@,
                p == old(self).pos(),
                toks == tokens_model(t0),
                p < self.pos(),
                level <= 5,
                binary(toks, p, level as int) == crate::grammar::binary_tail(
                    toks,
                    self.pos(),
                    level as int,
                    expr_model(expr),
                ),
            decreases toks.len() - self.pos(),
        {
            if !is_op(level, self.peek_type()) {
                return Ok(expr);
            }
            let operator = self.advance();
            let rhs = match self.operand(level) {
                Err(e) => return Err(e),
                Ok(e) => e,
            };
            expr = if level <= 1 {
                Expr::Logic(Logic { operator, lhs: Box::new(expr), rhs: Box::new(rhs) })
            } else {
                Expr::Binary(Binary { operator, lhs: Box::new(expr), rhs: Box::new(rhs) })
            };
        }
    }

    fn operand(&mut self, level: usize) -> (r: Result<Expr, GrammerError>)
        requires
            old(self).wf(),
            level <= 5,
        ensures
            kept(*old(self), *final(self)),
            expr_agrees(r, final(self).pos(), operand(old(self).toks(), old(self).pos(), level as int)),
            r is Ok ==> old(self).current < final(self).current,
        decreases old(self).tokens@.len() + 2 - old(self).current, 89 - 2 * level,
    {
        if level == 5 {
            self.unary()
        } else {
            self.binary(level + 1)
        }
    }

    fn unary(&mut self) -> (r: Result<Expr, GrammerError>)
        requires
            old(self).wf(),
        ensures
            kept(*old(self), *final(self)),
            expr_agrees(r, final(self).pos(), unary(old(self).toks(), old(self).pos())),
            r is Ok ==> old(self).current < final(self).current,
        decreases old(self).tokens@.len() + 2 - old(self).current, 70int,
    {
        let t = self.peek_type();
        if t == TokenType::Minus || t == TokenType::Bang {
            let operator = self.advance();
            let e = match self.unary() {
                Err(e) => return Err(e),
                Ok(e) => e,
            };
            Ok(Expr::Unary(Unary { operator, expr: Box::new(e) }))
        } else {
            self.call()
        }
    }

    fn call(&mut self) -> (r: Result<Expr, GrammerError>)
        requires
            old(self).wf(),
        ensures
            kept(*old(self), *final(self)),
            expr_agrees(r, final(self).pos(), call(old(self).toks(), old(self).pos())),
            r is Ok ==> old(self).current < final(self).current,
        decreases old(self).tokens@.len() + 2 - old(self).current, 69int,
    {
        let ghost t0 = self.tokens@;
        let ghost toks = self.toks();
        let ghost p = self.pos();
        let mut expr = match self.primary() {
            Err(e) => return Err(e),
            Ok(e) => e,
        };
        loop
            invariant
                self.wf(),
                self.tokens@ == t0,
                t0 == old(self).tokens@,
                p == old(self).pos(),
                toks == tokens_model(t0),
                p < self.pos(),
                call(toks, p) == crate::grammar::call_tail(toks, self.pos(), expr_model(expr)),
            decreases toks.len() - self.pos(),
        {
            if self.peek_type() != TokenType::LeftParen {
                return Ok(expr);
            }
            self.advance();
            expr = match self.finish_call(expr) {
                Err(e) => return Err(e),
                Ok(e) => e,
            };
        }
    }

    #[verifier::rlimit(60)]
    fn finish_call(&mut self, callee: Expr) -> (r: Result<Expr, GrammerError>)
        requires
            old(self).wf(),
        ensures
            kept(*old(self), *final(self)),
            expr_agrees(
                r,
                final(self).pos(),
                finish_call(old(self).toks(), old(self).pos(), expr_model(callee)),
            ),
            r is Ok ==> old(self).current < final(self).current,
        decreases old(self).tokens@.len() + 2 - old(self).current, 101int,
    {
        if self.peek_type() == TokenType::RightParen {
            let paren = self.advance();
            let arguments: Vec<Expr> = Vec::new();
            proof {
                assert(exprs_model(arguments@) =~= seq![]);
            }
            return Ok(Expr::Call(Call { callee: Box::new(callee), paren, arguments }));
        }
        let e = match self.expression() {
            Err(e) => return Err(e),
            Ok(e) => e,
        };
        let ghost em = expr_model(e);
        let arguments: Vec<Expr> = match e {
            Expr::Comma(c) => c.internal,
            other => {
                let mut v: Vec<Expr> = Vec::new();
                proof {
                    lemma_exprs_model_push(v@, other);
                    assert(exprs_model(v@) =~= seq![]);
                    assert(seq![expr_model(other)] =~= seq![].push(expr_model(other)));
                }
                v.push(other);
                v
            },
        };
        assert(exprs_model(arguments@) == call_arguments(em));
        proof {
            lemma_exprs_model(arguments@);
        }
        if arguments.len() > MAX_ARITY {
            return Err(GrammerError::TooManyArguments { line: self.line() });
        }
        let paren = match self.expect(TokenType::RightParen) {
            Err(e) => return Err(e),
            Ok(t) => t,
        };
        Ok(Expr::Call(Call { callee: Box::new(callee), paren, arguments }))
    }

    fn primary(&mut self) -> (r: Result<Expr, GrammerError>)
        requires
            old(self).wf(),
        ensures
            kept(*old(self), *final(self)),
            expr_agrees(r, final(self).pos(), primary(old(self).toks(), old(self).pos())),
            r is Ok ==> old(self).current < final(self).current,
        decreases old(self).tokens@.len() + 2 - old(self).current, 60int,
    {
        let t = self.peek_type();
        if t == TokenType::True {
            self.advance();
            Ok(Expr::Literal(Literal::Boolean(true)))
        } else if t == TokenType::False {
            self.advance();
            Ok(Expr::Literal(Literal::Boolean(false)))
        } else if t == TokenType::Nil {
            self.advance();
            Ok(Expr::Literal(Literal::Nil))
        } else if t == TokenType::String || t == TokenType::Number {
            let tok = self.advance();
            Ok(Expr::Literal(tok.literal))
        } else if t == TokenType::Identifier {
            let name = self.advance();
            Ok(Expr::Variable(Variable { name }))
        } else if t == TokenType::LeftParen {
            self.advance();
            let e = match self.expression() {
                Err(e) => return Err(e),
                Ok(e) => e,
            };
            match self.expect(TokenType::RightParen) {
                Err(e) => return Err(e),
                Ok(_) => {},
            }
            Ok(Expr::Group(Group { expr: Box::new(e) }))
        } else {
            Err(GrammerError::ExpectExpression { line: self.line() })
        }
    }
}

impl Parser {
    /// `exprStmt`, or `printStmt` after its `print`.
    fn expression_stmt(&mut self, print: bool) -> (r: Result<Stmt, GrammerError>)
        requires
            old(self).wf(),
        ensures
            kept(*old(self), *final(self)),
            stmt_agrees(r, final(self).pos(), expression_stmt(old(self).toks(), old(self).pos(), print)),
            r is Ok ==> old(self).current < final(self).current,
        decreases old(self).tokens@.len() + 2 - old(self).current, 205int,
    {
        let expr = match self.expression() {
            Err(e) => return Err(e),
            Ok(e) => e,
        };
        match self.expect(TokenType::Semicolon) {
            Err(e) => return Err(e),
            Ok(_) => {},
        }
        if print {
            Ok(Stmt::Print(PrintStmt { expr }))
        } else {
            Ok(Stmt::Expr(ExprStmt { expr }))
        }
    }

    #[verifier::rlimit(100)]
    fn for_stmt(&mut self) -> (r: Result<Stmt, GrammerError>)
        requires
            old(self).wf(),
        ensures
            kept(*old(self), *final(self)),
            stmt_agrees(r, final(self).pos(), for_stmt(old(self).toks(), old(self).pos())),
            r is Ok ==> old(self).current < final(self).current,
        decreases old(self).tokens@.len() + 2 - old(self).current, 205int,
    {
        match self.expect(TokenType::LeftParen) {
            Err(e) => return Err(e),
            Ok(_) => {},
        }
        let t = self.peek_type();
        let init: Option<Stmt> = if t == TokenType::Var {
            self.advance();
            match self.var_declaration() {
                Err(e) => return Err(e),
                Ok(s) => Some(s),
            }
        } else if t == TokenType::Semicolon {
            self.advance();
            None
        } else {
            match self.expression_stmt(false) {
                Err(e) => return Err(e),
                Ok(s) => Some(s),
            }
        };
        let cond: Option<Expr> = if self.peek_type() == TokenType::Semicolon {
            None
        } else {
            match self.expression() {
                Err(e) => return Err(e),
                Ok(c) => Some(c),
            }
        };
        match self.expect(TokenType::Semicolon) {
            Err(e) => return Err(e),
            Ok(_) => {},
        }
        let inc: Option<Expr> = if self.peek_type() == TokenType::RightParen {
            None
        } else {
            match self.expression() {
                Err(e) => return Err(e),
                Ok(i) => Some(i),
            }
        };
        match self.expect(TokenType::RightParen) {
            Err(e) => return Err(e),
            Ok(_) => {},
        }
        let body: Option<Stmt> = if self.peek_type() == TokenType::Semicolon {
            self.advance();
            None
        } else {
            match self.statement() {
                Err(e) => return Err(e),
                Ok(b) => Some(b),
            }
        };
        Ok(desugar(init, cond, inc, body))
    }

    fn if_stmt(&mut self) -> (r: Result<Stmt, GrammerError>)
        requires
            old(self).wf(),
        ensures
            kept(*old(self), *final(self)),
            stmt_agrees(r, final(self).pos(), if_stmt(old(self).toks(), old(self).pos())),
            r is Ok ==> old(self).current < final(self).current,
        decreases old(self).tokens@.len() + 2 - old(self).current, 205int,
    {
        match self.expect(TokenType::LeftParen) {
            Err(e) => return Err(e),
            Ok(_) => {},
        }
        let cond = match self.expression() {
            Err(e) => return Err(e),
            Ok(c) => c,
        };
        match self.expect(TokenType::RightParen) {
            Err(e) => return Err(e),
            Ok(_) => {},
        }
        let then_branch = match self.statement() {
            Err(e) => return Err(e),
            Ok(s) => s,
        };
        let else_branch = if self.peek_type() == TokenType::Else {
            self.advance();
            match self.statement() {
                Err(e) => return Err(e),
                Ok(s) => Some(Box::new(s)),
            }
        } else {
            None
        };
        Ok(Stmt::If(IfStmt { cond, then_branch: Box::new(then_branch), else_branch }))
    }

    fn while_stmt(&mut self) -> (r: Result<Stmt, GrammerError>)
        requires
            old(self).wf(),
        ensures
            kept(*old(self), *final(self)),
            stmt_agrees(r, final(self).pos(), while_stmt(old(self).toks(), old(self).pos())),
            r is Ok ==> old(self).current < final(self).current,
        decreases old(self).tokens@.len() + 2 - old(self).current, 205int,
    {
        match self.expect(TokenType::LeftParen) {
            Err(e) => return Err(e),
            Ok(_) => {},
        }
        let cond = match self.expression() {
            Err(e) => return Err(e),
            Ok(c) => c,
        };
        match self.expect(TokenType::RightParen) {
            Err(e) => return Err(e),
            Ok(_) => {},
        }
        if self.peek_type() == TokenType::Semicolon {
            self.advance();
            return Ok(Stmt::While(WhileStmt { cond, body: None }));
        }
        let body = match self.statement() {
            Err(e) => return Err(e),
            Ok(s) => s,
        };
        Ok(Stmt::While(WhileStmt { cond, body: Some(Box::new(body)) }))
    }

    fn return_stmt(&mut self) -> (r: Result<Stmt, GrammerError>)
        requires
            old(self).wf(),
        ensures
            kept(*old(self), *final(self)),
            stmt_agrees(r, final(self).pos(), return_stmt(old(self).toks(), old(self).pos())),
            r is Ok ==> old(self).current < final(self).current,
        decreases old(self).tokens@.len() + 2 - old(self).current, 205int,
    {
        if self.peek_type() == TokenType::Semicolon {
            self.advance();
            return Ok(Stmt::Return(ReturnStmt { expr: None }));
        }
        let e = match self.expression() {
            Err(e) => return Err(e),
            Ok(e) => e,
        };
        match self.expect(TokenType::Semicolon) {
            Err(e) => return Err(e),
            Ok(_) => {},
        }
        Ok(Stmt::Return(ReturnStmt { expr: Some(e) }))
    }

    fn var_declaration(&mut self) -> (r: Result<Stmt, GrammerError>)
        requires
            old(self).wf(),
        ensures
            kept(*old(self), *final(self)),
            stmt_agrees(r, final(self).pos(), var_declaration(old(self).toks(), old(self).pos())),
            r is Ok ==> old(self).current < final(self).current,
        decreases old(self).tokens@.len() + 2 - old(self).current, 205int,
    {
        let token = match self.expect(TokenType::Identifier) {
            Err(e) => return Err(e),
            Ok(t) => t,
        };
        let initializer = if self.peek_type() == TokenType::Equal {
            self.advance();
            match self.expression() {
                Err(e) => return Err(e),
                Ok(e) => e,
            }
        } else {
            Expr::Literal(Literal::Nil)
        };
        match self.expect(TokenType::Semicolon) {
            Err(e) => return Err(e),
            Ok(_) => {},
        }
        Ok(Stmt::Var(VarStmt { token, initializer }))
    }

    /// `params → IDENT ("," IDENT)*`
    fn params(&mut self) -> (r: Result<Vec<Token>, GrammerError>)
        requires
            old(self).wf(),
        ensures
            kept(*old(self), *final(self)),
            match r {
                Ok(v) => params_rest(old(self).toks(), old(self).pos(), seq![]) == Ok::<
                    (Seq<TokenModel>, int),
                    GrammerError,
                >((tokens_model(v@), final(self).pos())),
                Err(x) => params_rest(old(self).toks(), old(self).pos(), seq![]) == Err::<
                    (Seq<TokenModel>, int),
                    GrammerError,
                >(x),
            },
            r is Ok ==> old(self).current < final(self).current,
    {
        let ghost t0 = self.tokens@;
        let ghost toks = self.toks();
        let ghost p = self.pos();
        let mut params: Vec<Token> = Vec::new();
        assert(tokens_model(params@) =~= seq![]);
        loop
            invariant
                self.wf(),
                self.tokens@ == t0,
                t0 == old(self).tokens@,
                p == old(self).pos(),
                toks == tokens_model(t0),
                p <= self.pos(),
                params_rest(toks, p, seq![]) == params_rest(toks, self.pos(), tokens_model(params@)),
            decreases toks.len() - self.pos(),
        {
            if params.len() >= MAX_ARITY {
                return Err(GrammerError::TooManyParameters { line: self.line() });
            }
            let name = match self.expect(TokenType::Identifier) {
                Err(e) => return Err(e),
                Ok(t) => t,
            };
            proof {
                assert(tokens_model(params@.push(name)) =~= tokens_model(params@).push(token_model(name)));
            }
            params.push(name);
            if self.peek_type() != TokenType::Comma {
                return Ok(params);
            }
            self.advance();
        }
    }

    fn fun_declaration(&mut self) -> (r: Result<Stmt, GrammerError>)
        requires
            old(self).wf(),
        ensures
            kept(*old(self), *final(self)),
            stmt_agrees(r, final(self).pos(), fun_declaration(old(self).toks(), old(self).pos())),
            r is Ok ==> old(self).current < final(self).current,
        decreases old(self).tokens@.len() + 2 - old(self).current, 205int,
    {
        let name = match self.expect(TokenType::Identifier) {
            Err(e) => return Err(e),
            Ok(t) => t,
        };
        match self.expect(TokenType::LeftParen) {
            Err(e) => return Err(e),
            Ok(_) => {},
        }
        let parameters = if self.peek_type() == TokenType::RightParen {
            let v: Vec<Token> = Vec::new();
            assert(tokens_model(v@) =~= seq![]);
            v
        } else {
            match self.params() {
                Err(e) => return Err(e),
                Ok(v) => v,
            }
        };
        match self.expect(TokenType::RightParen) {
            Err(e) => return Err(e),
            Ok(_) => {},
        }
        match self.expect(TokenType::LeftBrace) {
            Err(e) => return Err(e),
            Ok(_) => {},
        }
        let block = match self.block_items() {
            Err(e) => return Err(e),
            Ok(b) => b,
        };
        let f = FunStmt { name, parameters, block };
        assert(crate::stmt::fun_model(f) == crate::stmt::FunModel {
            name: token_model(f.name),
            params: tokens_model(f.parameters@),
            body: stmts_model(f.block@),
        });
        Ok(Stmt::Fun(f))
    }

    /// The declarations of a block and its closing `}`.
    fn block_items(&mut self) -> (r: Result<Vec<Stmt>, GrammerError>)
        requires
            old(self).wf(),
        ensures
            kept(*old(self), *final(self)),
            stmts_agree(r, final(self).pos(), block_rest(old(self).toks(), old(self).pos(), seq![])),
            r is Ok ==> old(self).current < final(self).current,
        decreases old(self).tokens@.len() + 2 - old(self).current, 211int,
    {
        let ghost t0 = self.tokens@;
        let ghost toks = self.toks();
        let ghost p = self.pos();
        let mut stmts: Vec<Stmt> = Vec::new();
        assert(stmts_model(stmts@) =~= seq![]);
        loop
            invariant
                self.wf(),
                self.tokens@ == t0,
                t0 == old(self).tokens@,
                p == old(self).pos(),
                toks == tokens_model(t0),
                p <= self.pos(),
                block_rest(toks, p, seq![]) == block_rest(toks, self.pos(), stmts_model(stmts@)),
            decreases toks.len() - self.pos(),
        {
            let t = self.peek_type();
            if t == TokenType::RightBrace {
                self.advance();
                return Ok(stmts);
            }
            if t == TokenType::Eof {
                return Err(GrammerError::Expected { expected: TokenType::RightBrace, line: self.line() });
            }
            let s = match self.declaration() {
                Err(e) => return Err(e),
                Ok(s) => s,
            };
            proof {
                lemma_stmts_model_push(stmts@, s);
            }
            stmts.push(s);
        }
    }

    fn statement(&mut self) -> (r: Result<Stmt, GrammerError>)
        requires
            old(self).wf(),
        ensures
            kept(*old(self), *final(self)),
            stmt_agrees(r, final(self).pos(), statement(old(self).toks(), old(self).pos())),
            r is Ok ==> old(self).current < final(self).current,
        decreases old(self).tokens@.len() + 2 - old(self).current, 209int,
    {
        let t = self.peek_type();
        if t == TokenType::If {
            self.advance();
            self.if_stmt()
        } else if t == TokenType::While {
            self.advance();
            self.while_stmt()
        } else if t == TokenType::For {
            self.advance();
            self.for_stmt()
        } else if t == TokenType::Print {
            self.advance();
            self.expression_stmt(true)
        } else if t == TokenType::Break {
            self.advance();
            match self.expect(TokenType::Semicolon) {
                Err(e) => return Err(e),
                Ok(_) => {},
            }
            Ok(Stmt::Break(BreakStmt))
        } else if t == TokenType::Return {
            self.advance();
            self.return_stmt()
        } else if t == TokenType::LeftBrace {
            self.advance();
            let statements = match self.block_items() {
                Err(e) => return Err(e),
                Ok(ss) => ss,
            };
            Ok(Stmt::Block(BlockStmt { statements }))
        } else {
            self.expression_stmt(false)
        }
    }

    fn declaration(&mut self) -> (r: Result<Stmt, GrammerError>)
        requires
            old(self).wf(),
        ensures
            kept(*old(self), *final(self)),
            stmt_agrees(r, final(self).pos(), declaration(old(self).toks(), old(self).pos())),
            r is Ok ==> old(self).current < final(self).current,
        decreases old(self).tokens@.len() + 2 - old(self).current, 210int,
    {
        let t = self.peek_type();
        if t == TokenType::Var {
            self.advance();
            self.var_declaration()
        } else if t == TokenType::Fun {
            self.advance();
            self.fun_declaration()
        } else {
            self.statement()
        }
    }

    /// Parses a whole token stream: its statements, or the first grammar error.
    pub fn parse(&mut self, tokens: Vec<Token>) -> (r: Result<Vec<Stmt>, GrammerError>)
        requires
            well_formed_stream(tokens@),
        ensures
            parsed(tokens@, r),
    {
        self.tokens = tokens;
        self.current = 0;
        let ghost toks = self.toks();
        let mut stmts: Vec<Stmt> = Vec::new();
        assert(stmts_model(stmts@) =~= seq![]);
        loop
            invariant
                self.wf(),
                self.tokens@ == tokens@,
                toks == tokens_model(tokens@),
                program_rest(toks, 0, seq![]) == program_rest(toks, self.pos(), stmts_model(stmts@)),
            decreases toks.len() - self.pos(),
        {
            if self.peek_type() == TokenType::Eof {
                return Ok(stmts);
            }
            let s = match self.declaration() {
                Err(e) => return Err(e),
                Ok(s) => s,
            };
            proof {
                lemma_stmts_model_push(stmts@, s);
            }
            stmts.push(s);
        }
    }
}

} // verus!
