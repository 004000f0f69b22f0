//! Laws of the language, proved over the grammar and the semantics.
use crate::expr::{ExprModel, TokenModel};
use crate::grammar::{
    assignment, binary, call_arguments, desugar_for, expression, finish_call, kind, params_rest,
    GrammerError, MAX_ARITY,
};
use crate::lexical::{lemma_lex_lines, lex};
use crate::parser::{outcome_model, parsed};
use crate::semantics::{eval, eval_list, exec, exec_stmts, lookup, Flow, State};
use crate::stmt::{Stmt, StmtModel};
use crate::token::{Token, TokenType};
use crate::value::{truthy, RuntimeError, ValueModel};
use vstd::prelude::*;

verus! {

/// Parsing is deterministic: two parses of one token stream give the same
/// statements, or the same first error.
pub proof fn parse_is_deterministic(
    tokens: Seq<Token>,
    first: Result<Vec<Stmt>, GrammerError>,
    second: Result<Vec<Stmt>, GrammerError>,
)
    requires
        parsed(tokens, first),
        parsed(tokens, second),
    ensures
        outcome_model(first) == outcome_model(second),
{
}

/// A `return` ends its block at the statement that produced it: when a
/// statement ends with a return signal, the statements after it never run.
pub proof fn return_ends_block(st: State, s: StmtModel, rest: Seq<StmtModel>, fuel: nat)
    requires
        exec(st, s, fuel).1 matches Ok(Flow::FuncReturn(_)),
    ensures
        exec_stmts(st, seq![s] + rest, fuel) == exec(st, s, fuel),
{
    assert((seq![s] + rest)[0] == s);
}

/// `x or y` is `x` when `x` is truthy, else `y`; `x and y` is `x` when `x` is
/// falsy, else `y`: the operand values come back unchanged.
pub proof fn logic_returns_operands(
    st: State,
    op: TokenModel,
    x: ExprModel,
    y: ExprModel,
    fuel: nat,
)
    requires
        op.token_type == TokenType::Or || op.token_type == TokenType::And,
    ensures
        ({
            let (s1, rx) = eval(st, x, fuel);
            let e = ExprModel::Logic(op, Box::new(x), Box::new(y));
            rx matches Ok(a) ==> eval(st, e, fuel) == if (op.token_type == TokenType::Or) == truthy(
                a,
            ) {
                (s1, Ok(a))
            } else {
                eval(s1, y, fuel)
            }
        }),
{
}

/// Grouping is transparent: `(e)` evaluates as `e` does.
pub proof fn grouping_is_transparent(st: State, e: ExprModel, fuel: nat)
    ensures
        eval(st, ExprModel::Group(Box::new(e)), fuel) == eval(st, e, fuel),
{
}

/// `for (init; cond; inc) body` runs as `{ init; while (cond) { body; inc; } }`:
/// the same output and the same final state.
pub proof fn for_runs_as_its_desugaring(
    st: State,
    init: StmtModel,
    cond: ExprModel,
    inc: ExprModel,
    body: StmtModel,
    fuel: nat,
)
    ensures
        exec(st, desugar_for(Some(init), Some(cond), Some(inc), Some(body)), fuel) == exec(
            st,
            StmtModel::Block(
                seq![
                    init,
                    StmtModel::While(
                        cond,
                        Some(Box::new(StmtModel::Block(seq![body, StmtModel::Expr(inc)]))),
                    ),
                ],
            ),
            fuel,
        ),
{
    assert(seq![body].push(StmtModel::Expr(inc)) =~= seq![body, StmtModel::Expr(inc)]);
}

/// Unary `-` on anything but a number is a type error.
pub proof fn negating_a_non_number_fails(st: State, op: TokenModel, x: ExprModel, fuel: nat)
    requires
        op.token_type == TokenType::Minus,
    ensures
        ({
            let (s1, r) = eval(st, x, fuel);
            r matches Ok(v) && !(v is Number) ==> eval(
                st,
                ExprModel::Unary(op, Box::new(x)),
                fuel,
            ) == (s1, Err::<ValueModel, RuntimeError>(RuntimeError::TypeError { line: op.line }))
        }),
{
}

/// A call of a declared function with a number of arguments other than its
/// parameters is an arity error.
pub proof fn arity_mismatch_fails(
    st: State,
    callee: ExprModel,
    paren: TokenModel,
    args: Seq<ExprModel>,
    fuel: nat,
)
    ensures
        ({
            let (s1, rf) = eval(st, callee, fuel);
            let (s2, ra) = eval_list(s1, args, fuel);
            (rf matches Ok(ValueModel::Function(f)) && ra matches Ok(vs) && f.params.len()
                != vs.len()) ==> eval(st, ExprModel::Call(Box::new(callee), paren, args), fuel) == (
                s2,
                Err::<ValueModel, RuntimeError>(RuntimeError::ArityError { line: paren.line }),
            )
        }),
{
}

/// Reading a name that no scope of the chain binds is a name error.
pub proof fn undefined_name_fails(st: State, name: TokenModel, fuel: nat)
    requires
        lookup(st.scopes, name.lexeme) is None,
    ensures
        eval(st, ExprModel::Variable(name), fuel) == (
            st,
            Err::<ValueModel, RuntimeError>(RuntimeError::NameError { line: name.line }),
        ),
{
}

/// `target = value` where the target is no variable is a grammar error.
pub proof fn assignment_needs_a_variable(toks: Seq<TokenModel>, p: int)
    requires
        0 <= p < toks.len(),
        binary(toks, p, 0) matches Ok((lhs, q)) && p <= q < toks.len() && kind(toks, q)
            == TokenType::Equal && !(lhs is Variable) && assignment(toks, q + 1) is Ok,
    ensures
        assignment(toks, p) matches Err(GrammerError::InvalidAssignmentTarget { .. }),
{
}

/// More than 255 arguments in a call are a grammar error.
pub proof fn too_many_arguments_fail(toks: Seq<TokenModel>, p: int, callee: ExprModel)
    requires
        0 <= p < toks.len(),
        kind(toks, p) != TokenType::RightParen,
        expression(toks, p) matches Ok((e, q)) && p <= q < toks.len() && call_arguments(e).len()
            > MAX_ARITY,
    ensures
        finish_call(toks, p, callee) matches Err(GrammerError::TooManyArguments { .. }),
{
}

/// After 255 parameters, a further one is a grammar error.
pub proof fn too_many_parameters_fail(toks: Seq<TokenModel>, p: int, params: Seq<TokenModel>)
    requires
        0 <= p < toks.len(),
        params.len() >= MAX_ARITY,
    ensures
        params_rest(toks, p, params) matches Err(GrammerError::TooManyParameters { .. }),
{
}

/// The lines of the tokens of a text start at 1 or later and never decrease.
pub proof fn token_lines_never_decrease(s: Seq<char>)
    requires
        s.len() < usize::MAX,
    ensures
        forall|i: int| 0 <= i < lex(s).len() ==> 1 <= #[trigger] lex(s)[i].line,
        forall|i: int, j: int|
            0 <= i < j < lex(s).len() ==> #[trigger] lex(s)[i].line <= #[trigger] lex(s)[j].line,
{
    lemma_lex_lines(s, 0, 1);
}

} // verus!
