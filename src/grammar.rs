//! The grammar as spec functions: what parsing a token sequence yields, from
//! each position. Every function returns the parsed tree and the position
//! after it, or the first grammar error.
use crate::expr::{ExprModel, LiteralModel, TokenModel};
use crate::stmt::{FunModel, StmtModel};
use crate::token::TokenType;
use vstd::prelude::*;

verus! {

/// A grammar error, with the line of the token where it was found.
#[derive(Clone, Copy, Debug, PartialEq, Eq, Structural)]
pub enum GrammerError {
    /// A token of kind `expected` had to come here.
    Expected { expected: TokenType, line: usize },
    /// No expression starts with this token.
    ExpectExpression { line: usize },
    /// The left of `=` is not a variable.
    InvalidAssignmentTarget { line: usize },
    /// A call with more than 255 arguments.
    TooManyArguments { line: usize },
    /// A function with more than 255 parameters.
    TooManyParameters { line: usize },
}

/// The most arguments of a call, and parameters of a function.
pub const MAX_ARITY: usize = 255;

pub type Parsed<T> = Result<(T, int), GrammerError>;

pub open spec fn kind(toks: Seq<TokenModel>, p: int) -> TokenType {
    toks[p].token_type
}

/// What a position outside the sequence yields; a well-formed stream never
/// gets there.
pub open spec fn off_end() -> GrammerError {
    GrammerError::ExpectExpression { line: 0 }
}

pub open spec fn expected(toks: Seq<TokenModel>, p: int, t: TokenType) -> GrammerError {
    GrammerError::Expected { expected: t, line: toks[p].line }
}

pub open spec fn within(toks: Seq<TokenModel>, p: int, q: int) -> bool {
    p <= q < toks.len()
}

pub open spec fn nil_literal() -> ExprModel {
    ExprModel::Literal(LiteralModel::Nil)
}

/// The operators of each binary level, from `or` (0) to factors (5).
pub open spec fn is_level_op(level: int, t: TokenType) -> bool {
    if level == 0 {
        t == TokenType::Or
    } else if level == 1 {
        t == TokenType::And
    } else if level == 2 {
        t == TokenType::BangEqual || t == TokenType::EqualEqual
    } else if level == 3 {
        t == TokenType::Greater || t == TokenType::GreaterEqual || t == TokenType::Less
            || t == TokenType::LessEqual
    } else if level == 4 {
        t == TokenType::Minus || t == TokenType::Plus
    } else {
        t == TokenType::Slash || t == TokenType::Star
    }
}

/// `expression → ternary ("," ternary)*`; two or more items make a comma node.
pub open spec fn expression(toks: Seq<TokenModel>, p: int) -> Parsed<ExprModel>
    decreases toks.len() + 2 - p, 100int,
{
    if !(0 <= p < toks.len()) {
        Err(off_end())
    } else {
        match ternary(toks, p) {
            Err(e) => Err(e),
            Ok((first, q)) => if !within(toks, p, q) {
                Err(off_end())
            } else if kind(toks, q) == TokenType::Comma {
                match comma_rest(toks, q + 1, seq![first]) {
                    Err(e) => Err(e),
                    Ok((items, r)) => Ok((ExprModel::Comma(items), r)),
                }
            } else {
                Ok((first, q))
            },
        }
    }
}

pub open spec fn comma_rest(toks: Seq<TokenModel>, p: int, items: Seq<ExprModel>) -> Parsed<
    Seq<ExprModel>,
>
    decreases toks.len() + 2 - p, 99int,
{
    if !(0 <= p < toks.len()) {
        Err(off_end())
    } else {
        match ternary(toks, p) {
            Err(e) => Err(e),
            Ok((e, q)) => if !within(toks, p, q) {
                Err(off_end())
            } else if kind(toks, q) == TokenType::Comma {
                comma_rest(toks, q + 1, items.push(e))
            } else {
                Ok((items.push(e), q))
            },
        }
    }
}

/// `ternary → assignment ("?" expression ":" expression)*`
pub open spec fn ternary(toks: Seq<TokenModel>, p: int) -> Parsed<ExprModel>
    decreases toks.len() + 2 - p, 98int,
{
    if !(0 <= p < toks.len()) {
        Err(off_end())
    } else {
        match assignment(toks, p) {
            Err(e) => Err(e),
            Ok((c, q)) => if !within(toks, p, q) {
                Err(off_end())
            } else {
                ternary_tail(toks, q, c)
            },
        }
    }
}

pub open spec fn ternary_tail(toks: Seq<TokenModel>, p: int, cond: ExprModel) -> Parsed<ExprModel>
    decreases toks.len() + 2 - p, 97int,
{
    if !(0 <= p < toks.len()) {
        Err(off_end())
    } else if kind(toks, p) == TokenType::QuestionMark {
        match expression(toks, p + 1) {
            Err(e) => Err(e),
            Ok((l, q)) => if !within(toks, p + 1, q) {
                Err(off_end())
            } else if kind(toks, q) != TokenType::Colon {
                Err(expected(toks, q, TokenType::Colon))
            } else {
                match expression(toks, q + 1) {
                    Err(e) => Err(e),
                    Ok((r, s)) => if !within(toks, q + 1, s) {
                        Err(off_end())
                    } else {
                        ternary_tail(
                            toks,
                            s,
                            ExprModel::Ternary(Box::new(cond), toks[p], Box::new(l), Box::new(r)),
                        )
                    },
                }
            },
        }
    } else {
        Ok((cond, p))
    }
}

/// `assignment → IDENT "=" assignment | logic_or`
pub open spec fn assignment(toks: Seq<TokenModel>, p: int) -> Parsed<ExprModel>
    decreases toks.len() + 2 - p, 96int,
{
    if !(0 <= p < toks.len()) {
        Err(off_end())
    } else {
        match binary(toks, p, 0) {
            Err(e) => Err(e),
            Ok((lhs, q)) => if !within(toks, p, q) {
                Err(off_end())
            } else if kind(toks, q) == TokenType::Equal {
                match assignment(toks, q + 1) {
                    Err(e) => Err(e),
                    Ok((v, r)) => match lhs {
                        ExprModel::Variable(name) => Ok((ExprModel::Assign(name, Box::new(v)), r)),
                        _ => Err(GrammerError::InvalidAssignmentTarget { line: toks[q].line }),
                    },
                }
            } else {
                Ok((lhs, q))
            },
        }
    }
}

/// The left-associative levels: `or`, `and`, equality, comparison, term, factor.
pub open spec fn binary(toks: Seq<TokenModel>, p: int, level: int) -> Parsed<ExprModel>
    decreases toks.len() + 2 - p, 90 - 2 * level,
{
    if !(0 <= p < toks.len()) || !(0 <= level <= 5) {
        Err(off_end())
    } else {
        match operand(toks, p, level) {
            Err(e) => Err(e),
            Ok((lhs, q)) => if !within(toks, p, q) {
                Err(off_end())
            } else {
                binary_tail(toks, q, level, lhs)
            },
        }
    }
}

/// What stands between the operators of a level: the next level, or a unary.
pub open spec fn operand(toks: Seq<TokenModel>, p: int, level: int) -> Parsed<ExprModel>
    decreases toks.len() + 2 - p, 89 - 2 * level,
{
    if !(0 <= p < toks.len()) || !(0 <= level <= 5) {
        Err(off_end())
    } else if level == 5 {
        unary(toks, p)
    } else {
        binary(toks, p, level + 1)
    }
}

pub open spec fn binary_tail(toks: Seq<TokenModel>, p: int, level: int, lhs: ExprModel) -> Parsed<
    ExprModel,
>
    decreases toks.len() + 2 - p, 89 - 2 * level,
{
    if !(0 <= p < toks.len()) || !(0 <= level <= 5) {
        Err(off_end())
    } else if is_level_op(level, kind(toks, p)) {
        match operand(toks, p + 1, level) {
            Err(e) => Err(e),
            Ok((rhs, q)) => if !within(toks, p + 1, q) {
                Err(off_end())
            } else {
                let node = if level <= 1 {
                    ExprModel::Logic(toks[p], Box::new(lhs), Box::new(rhs))
                } else {
                    ExprModel::Binary(toks[p], Box::new(lhs), Box::new(rhs))
                };
                binary_tail(toks, q, level, node)
            },
        }
    } else {
        Ok((lhs, p))
    }
}

/// `unary → ("!" | "-") unary | call`
pub open spec fn unary(toks: Seq<TokenModel>, p: int) -> Parsed<ExprModel>
    decreases toks.len() + 2 - p, 70int,
{
    if !(0 <= p < toks.len()) {
        Err(off_end())
    } else if kind(toks, p) == TokenType::Minus || kind(toks, p) == TokenType::Bang {
        match unary(toks, p + 1) {
            Err(e) => Err(e),
            Ok((e, q)) => Ok((ExprModel::Unary(toks[p], Box::new(e)), q)),
        }
    } else {
        call(toks, p)
    }
}

/// `call → primary ("(" arguments? ")")*`
pub open spec fn call(toks: Seq<TokenModel>, p: int) -> Parsed<ExprModel>
    decreases toks.len() + 2 - p, 69int,
{
    if !(0 <= p < toks.len()) {
        Err(off_end())
    } else {
        match primary(toks, p) {
            Err(e) => Err(e),
            Ok((e, q)) => if !within(toks, p, q) {
                Err(off_end())
            } else {
                call_tail(toks, q, e)
            },
        }
    }
}

pub open spec fn call_tail(toks: Seq<TokenModel>, p: int, callee: ExprModel) -> Parsed<ExprModel>
    decreases toks.len() + 2 - p, 68int,
{
    if !(0 <= p < toks.len()) {
        Err(off_end())
    } else if kind(toks, p) == TokenType::LeftParen {
        match finish_call(toks, p + 1, callee) {
            Err(e) => Err(e),
            Ok((c, q)) => if !within(toks, p + 1, q) {
                Err(off_end())
            } else {
                call_tail(toks, q, c)
            },
        }
    } else {
        Ok((callee, p))
    }
}

/// The arguments of a call: one expression, whose comma items, if it is a
/// comma node, are the arguments.
pub open spec fn call_arguments(e: ExprModel) -> Seq<ExprModel> {
    match e {
        ExprModel::Comma(items) => items,
        _ => seq![e],
    }
}

pub open spec fn finish_call(toks: Seq<TokenModel>, p: int, callee: ExprModel) -> Parsed<ExprModel>
    decreases toks.len() + 2 - p, 101int,
{
    if !(0 <= p < toks.len()) {
        Err(off_end())
    } else if kind(toks, p) == TokenType::RightParen {
        Ok((ExprModel::Call(Box::new(callee), toks[p], seq![]), p + 1))
    } else {
        match expression(toks, p) {
            Err(e) => Err(e),
            Ok((e, q)) => if !within(toks, p, q) {
                Err(off_end())
            } else if call_arguments(e).len() > MAX_ARITY {
                Err(GrammerError::TooManyArguments { line: toks[q].line })
            } else if kind(toks, q) != TokenType::RightParen {
                Err(expected(toks, q, TokenType::RightParen))
            } else {
                Ok((ExprModel::Call(Box::new(callee), toks[q], call_arguments(e)), q + 1))
            },
        }
    }
}

/// `primary → NUMBER | STRING | "true" | "false" | "nil" | "(" expression ")" | IDENT`
pub open spec fn primary(toks: Seq<TokenModel>, p: int) -> Parsed<ExprModel>
    decreases toks.len() + 2 - p, 60int,
{
    if !(0 <= p < toks.len()) {
        Err(off_end())
    } else {
        let t = kind(toks, p);
        if t == TokenType::True {
            Ok((ExprModel::Literal(LiteralModel::Boolean(true)), p + 1))
        } else if t == TokenType::False {
            Ok((ExprModel::Literal(LiteralModel::Boolean(false)), p + 1))
        } else if t == TokenType::Nil {
            Ok((nil_literal(), p + 1))
        } else if t == TokenType::String || t == TokenType::Number {
            Ok((ExprModel::Literal(toks[p].literal), p + 1))
        } else if t == TokenType::Identifier {
            Ok((ExprModel::Variable(toks[p]), p + 1))
        } else if t == TokenType::LeftParen {
            match expression(toks, p + 1) {
                Err(e) => Err(e),
                Ok((e, q)) => if !within(toks, p + 1, q) {
                    Err(off_end())
                } else if kind(toks, q) != TokenType::RightParen {
                    Err(expected(toks, q, TokenType::RightParen))
                } else {
                    Ok((ExprModel::Group(Box::new(e)), q + 1))
                },
            }
        } else {
            Err(GrammerError::ExpectExpression { line: toks[p].line })
        }
    }
}

/// `exprStmt → expression ";"` and `printStmt → "print" expression ";"`, from
/// after the `print`.
pub open spec fn expression_stmt(toks: Seq<TokenModel>, p: int, print: bool) -> Parsed<StmtModel>
    decreases toks.len() + 2 - p, 205int,
{
    if !(0 <= p < toks.len()) {
        Err(off_end())
    } else {
        match expression(toks, p) {
            Err(e) => Err(e),
            Ok((e, q)) => if !within(toks, p, q) {
                Err(off_end())
            } else if kind(toks, q) != TokenType::Semicolon {
                Err(expected(toks, q, TokenType::Semicolon))
            } else if print {
                Ok((StmtModel::Print(e), q + 1))
            } else {
                Ok((StmtModel::Expr(e), q + 1))
            },
        }
    }
}

/// The statement that `for (init; cond; inc) body` stands for:
/// `{ init; while (cond) { body; inc; } }`, each part left out where it is
/// missing, and `true` for a missing condition.
pub open spec fn desugar_for(
    init: Option<StmtModel>,
    cond: Option<ExprModel>,
    inc: Option<ExprModel>,
    body: Option<StmtModel>,
) -> StmtModel {
    let parts: Seq<StmtModel> = match body {
        Some(b) => seq![b],
        None => seq![],
    };
    let parts = match inc {
        Some(i) => parts.push(StmtModel::Expr(i)),
        None => parts,
    };
    let looped = if parts.len() == 0 {
        None
    } else {
        Some(Box::new(StmtModel::Block(parts)))
    };
    let cond = match cond {
        Some(c) => c,
        None => ExprModel::Literal(LiteralModel::Boolean(true)),
    };
    let w = StmtModel::While(cond, looped);
    match init {
        Some(i) => StmtModel::Block(seq![i, w]),
        None => w,
    }
}

/// `forStmt`, from after the `for`.
pub open spec fn for_stmt(toks: Seq<TokenModel>, p: int) -> Parsed<StmtModel>
    decreases toks.len() + 2 - p, 205int,
{
    if !(0 <= p < toks.len()) {
        Err(off_end())
    } else if kind(toks, p) != TokenType::LeftParen {
        Err(expected(toks, p, TokenType::LeftParen))
    } else {
        let init: Parsed<Option<StmtModel>> = if kind(toks, p + 1) == TokenType::Var {
            match var_declaration(toks, p + 2) {
                Err(e) => Err(e),
                Ok((s, q)) => Ok((Some(s), q)),
            }
        } else if kind(toks, p + 1) == TokenType::Semicolon {
            Ok((None, p + 2))
        } else {
            match expression_stmt(toks, p + 1, false) {
                Err(e) => Err(e),
                Ok((s, q)) => Ok((Some(s), q)),
            }
        };
        match init {
            Err(e) => Err(e),
            Ok((init, q)) => if !within(toks, p + 1, q) {
                Err(off_end())
            } else {
                let cond: Parsed<Option<ExprModel>> = if kind(toks, q) == TokenType::Semicolon {
                    Ok((None, q))
                } else {
                    match expression(toks, q) {
                        Err(e) => Err(e),
                        Ok((c, r)) => Ok((Some(c), r)),
                    }
                };
                match cond {
                    Err(e) => Err(e),
                    Ok((cond, r)) => if !within(toks, q, r) {
                        Err(off_end())
                    } else if kind(toks, r) != TokenType::Semicolon {
                        Err(expected(toks, r, TokenType::Semicolon))
                    } else {
                        let inc: Parsed<Option<ExprModel>> = if kind(toks, r + 1)
                            == TokenType::RightParen {
                            Ok((None, r + 1))
                        } else {
                            match expression(toks, r + 1) {
                                Err(e) => Err(e),
                                Ok((i, s)) => Ok((Some(i), s)),
                            }
                        };
                        match inc {
                            Err(e) => Err(e),
                            Ok((inc, s)) => if !within(toks, r + 1, s) {
                                Err(off_end())
                            } else if kind(toks, s) != TokenType::RightParen {
                                Err(expected(toks, s, TokenType::RightParen))
                            } else if kind(toks, s + 1) == TokenType::Semicolon {
                                Ok((desugar_for(init, cond, inc, None), s + 2))
                            } else {
                                match statement(toks, s + 1) {
                                    Err(e) => Err(e),
                                    Ok((b, t)) => Ok((desugar_for(init, cond, inc, Some(b)), t)),
                                }
                            },
                        }
                    },
                }
            },
        }
    }
}

/// `ifStmt`, from after the `if`.
pub open spec fn if_stmt(toks: Seq<TokenModel>, p: int) -> Parsed<StmtModel>
    decreases toks.len() + 2 - p, 205int,
{
    if !(0 <= p < toks.len()) {
        Err(off_end())
    } else if kind(toks, p) != TokenType::LeftParen {
        Err(expected(toks, p, TokenType::LeftParen))
    } else {
        match expression(toks, p + 1) {
            Err(e) => Err(e),
            Ok((c, q)) => if !within(toks, p + 1, q) {
                Err(off_end())
            } else if kind(toks, q) != TokenType::RightParen {
                Err(expected(toks, q, TokenType::RightParen))
            } else {
                match statement(toks, q + 1) {
                    Err(e) => Err(e),
                    Ok((t, r)) => if !within(toks, q + 1, r) {
                        Err(off_end())
                    } else if kind(toks, r) == TokenType::Else {
                        match statement(toks, r + 1) {
                            Err(e) => Err(e),
                            Ok((f, s)) => Ok(
                                (StmtModel::If(c, Box::new(t), Some(Box::new(f))), s),
                            ),
                        }
                    } else {
                        Ok((StmtModel::If(c, Box::new(t), None), r))
                    },
                }
            },
        }
    }
}

/// `whileStmt`, from after the `while`.
pub open spec fn while_stmt(toks: Seq<TokenModel>, p: int) -> Parsed<StmtModel>
    decreases toks.len() + 2 - p, 205int,
{
    if !(0 <= p < toks.len()) {
        Err(off_end())
    } else if kind(toks, p) != TokenType::LeftParen {
        Err(expected(toks, p, TokenType::LeftParen))
    } else {
        match expression(toks, p + 1) {
            Err(e) => Err(e),
            Ok((c, q)) => if !within(toks, p + 1, q) {
                Err(off_end())
            } else if kind(toks, q) != TokenType::RightParen {
                Err(expected(toks, q, TokenType::RightParen))
            } else if kind(toks, q + 1) == TokenType::Semicolon {
                Ok((StmtModel::While(c, None), q + 2))
            } else {
                match statement(toks, q + 1) {
                    Err(e) => Err(e),
                    Ok((b, r)) => Ok((StmtModel::While(c, Some(Box::new(b))), r)),
                }
            },
        }
    }
}

/// `returnStmt`, from after the `return`.
pub open spec fn return_stmt(toks: Seq<TokenModel>, p: int) -> Parsed<StmtModel>
    decreases toks.len() + 2 - p, 205int,
{
    if !(0 <= p < toks.len()) {
        Err(off_end())
    } else if kind(toks, p) == TokenType::Semicolon {
        Ok((StmtModel::Return(None), p + 1))
    } else {
        match expression(toks, p) {
            Err(e) => Err(e),
            Ok((e, q)) => if !within(toks, p, q) {
                Err(off_end())
            } else if kind(toks, q) != TokenType::Semicolon {
                Err(expected(toks, q, TokenType::Semicolon))
            } else {
                Ok((StmtModel::Return(Some(e)), q + 1))
            },
        }
    }
}

/// `varDecl`, from after the `var`.
pub open spec fn var_declaration(toks: Seq<TokenModel>, p: int) -> Parsed<StmtModel>
    decreases toks.len() + 2 - p, 205int,
{
    if !(0 <= p < toks.len()) {
        Err(off_end())
    } else if kind(toks, p) != TokenType::Identifier {
        Err(expected(toks, p, TokenType::Identifier))
    } else {
        let init: Parsed<ExprModel> = if kind(toks, p + 1) == TokenType::Equal {
            expression(toks, p + 2)
        } else {
            Ok((nil_literal(), p + 1))
        };
        match init {
            Err(e) => Err(e),
            Ok((e, q)) => if !within(toks, p + 1, q) {
                Err(off_end())
            } else if kind(toks, q) != TokenType::Semicolon {
                Err(expected(toks, q, TokenType::Semicolon))
            } else {
                Ok((StmtModel::Var(toks[p], e), q + 1))
            },
        }
    }
}

/// `params → IDENT ("," IDENT)*`, after `params` were read already.
pub open spec fn params_rest(toks: Seq<TokenModel>, p: int, params: Seq<TokenModel>) -> Parsed<
    Seq<TokenModel>,
>
    decreases toks.len() + 2 - p,
{
    if !(0 <= p < toks.len()) {
        Err(off_end())
    } else if params.len() >= MAX_ARITY {
        Err(GrammerError::TooManyParameters { line: toks[p].line })
    } else if kind(toks, p) != TokenType::Identifier {
        Err(expected(toks, p, TokenType::Identifier))
    } else if kind(toks, p + 1) == TokenType::Comma {
        params_rest(toks, p + 2, params.push(toks[p]))
    } else {
        Ok((params.push(toks[p]), p + 1))
    }
}

/// `funDecl`, from after the `fun`.
pub open spec fn fun_declaration(toks: Seq<TokenModel>, p: int) -> Parsed<StmtModel>
    decreases toks.len() + 2 - p, 205int,
{
    if !(0 <= p < toks.len()) {
        Err(off_end())
    } else if kind(toks, p) != TokenType::Identifier {
        Err(expected(toks, p, TokenType::Identifier))
    } else if kind(toks, p + 1) != TokenType::LeftParen {
        Err(expected(toks, p + 1, TokenType::LeftParen))
    } else {
        let params: Parsed<Seq<TokenModel>> = if kind(toks, p + 2) == TokenType::RightParen {
            Ok((seq![], p + 2))
        } else {
            params_rest(toks, p + 2, seq![])
        };
        match params {
            Err(e) => Err(e),
            Ok((params, q)) => if !within(toks, p + 2, q) {
                Err(off_end())
            } else if kind(toks, q) != TokenType::RightParen {
                Err(expected(toks, q, TokenType::RightParen))
            } else if kind(toks, q + 1) != TokenType::LeftBrace {
                Err(expected(toks, q + 1, TokenType::LeftBrace))
            } else {
                match block_rest(toks, q + 2, seq![]) {
                    Err(e) => Err(e),
                    Ok((body, r)) => Ok(
                        (StmtModel::Fun(FunModel { name: toks[p], params, body }), r),
                    ),
                }
            },
        }
    }
}

/// The declarations of a block up to its `}`, after `stmts` were read already.
pub open spec fn block_rest(toks: Seq<TokenModel>, p: int, stmts: Seq<StmtModel>) -> Parsed<
    Seq<StmtModel>,
>
    decreases toks.len() + 2 - p, 211int,
{
    if !(0 <= p < toks.len()) {
        Err(off_end())
    } else if kind(toks, p) == TokenType::RightBrace {
        Ok((stmts, p + 1))
    } else if kind(toks, p) == TokenType::Eof {
        Err(expected(toks, p, TokenType::RightBrace))
    } else {
        match declaration(toks, p) {
            Err(e) => Err(e),
            Ok((s, q)) => if !(p < q < toks.len()) {
                Err(off_end())
            } else {
                block_rest(toks, q, stmts.push(s))
            },
        }
    }
}

/// `statement → exprStmt | printStmt | block | ifStmt | whileStmt | forStmt | returnStmt | breakStmt`
pub open spec fn statement(toks: Seq<TokenModel>, p: int) -> Parsed<StmtModel>
    decreases toks.len() + 2 - p, 209int,
{
    if !(0 <= p < toks.len()) {
        Err(off_end())
    } else {
        let t = kind(toks, p);
        if t == TokenType::If {
            if_stmt(toks, p + 1)
        } else if t == TokenType::While {
            while_stmt(toks, p + 1)
        } else if t == TokenType::For {
            for_stmt(toks, p + 1)
        } else if t == TokenType::Print {
            expression_stmt(toks, p + 1, true)
        } else if t == TokenType::Break {
            if kind(toks, p + 1) != TokenType::Semicolon {
                Err(expected(toks, p + 1, TokenType::Semicolon))
            } else {
                Ok((StmtModel::Break, p + 2))
            }
        } else if t == TokenType::Return {
            return_stmt(toks, p + 1)
        } else if t == TokenType::LeftBrace {
            match block_rest(toks, p + 1, seq![]) {
                Err(e) => Err(e),
                Ok((ss, q)) => Ok((StmtModel::Block(ss), q)),
            }
        } else {
            expression_stmt(toks, p, false)
        }
    }
}

/// `declaration → varDecl | funDecl | statement`
pub open spec fn declaration(toks: Seq<TokenModel>, p: int) -> Parsed<StmtModel>
    decreases toks.len() + 2 - p, 210int,
{
    if !(0 <= p < toks.len()) {
        Err(off_end())
    } else if kind(toks, p) == TokenType::Var {
        var_declaration(toks, p + 1)
    } else if kind(toks, p) == TokenType::Fun {
        fun_declaration(toks, p + 1)
    } else {
        statement(toks, p)
    }
}

/// The declarations up to the end of the stream, after `stmts` were read already.
pub open spec fn program_rest(toks: Seq<TokenModel>, p: int, stmts: Seq<StmtModel>) -> Parsed<
    Seq<StmtModel>,
>
    decreases toks.len() + 2 - p, 300int,
{
    if !(0 <= p < toks.len()) {
        Err(off_end())
    } else if kind(toks, p) == TokenType::Eof {
        Ok((stmts, p))
    } else {
        match declaration(toks, p) {
            Err(e) => Err(e),
            Ok((s, q)) => if !(p < q < toks.len()) {
                Err(off_end())
            } else {
                program_rest(toks, q, stmts.push(s))
            },
        }
    }
}

/// `program → declaration* EOF`: the statements of a whole token stream, or
/// its first grammar error.
pub open spec fn program(toks: Seq<TokenModel>) -> Result<Seq<StmtModel>, GrammerError> {
    match program_rest(toks, 0, seq![]) {
        Err(e) => Err(e),
        Ok((stmts, _)) => Ok(stmts),
    }
}

} // verus!
