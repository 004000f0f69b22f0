//! What running a program means, as spec functions: evaluation of an
//! expression and execution of a statement against a state of scopes and
//! printed lines. A fuel bound makes every run finite: each call of a
//! function and each round of a loop spends one unit, and a run that needs
//! more fails with `OutOfFuel`.
use crate::environment::{define_in, find, ScopeModel};
use crate::expr::{ExprModel, LiteralModel, TokenModel};
use crate::number::{float_of_integer, float_quotient, num_positive, THOUSAND_BITS};
use crate::stmt::StmtModel;
use crate::token::TokenType;
use crate::value::{binary_result, negate_result, stringify, truthy, RuntimeError, ValueModel};
use vstd::prelude::*;

verus! {

/// The fuel that each top-level statement of a program gets.
pub const FUEL: u64 = 0xffff_ffff_ffff_ffff;

/// The state a program runs against: the chain of scopes, globals first and
/// the current scope last; the lines printed so far; and the host clock in
/// milliseconds, as last handed in.
pub struct State {
    pub scopes: Seq<ScopeModel>,
    pub output: Seq<Seq<char>>,
    pub clock: u64,
}

/// The signal with which a statement ends.
pub enum Flow {
    Null,
    Continue,
    LoopBreak,
    FuncReturn(ValueModel),
}

/// How a block is entered: a plain block gets a child of the current scope;
/// a function body gets a scope whose parent is the globals.
#[derive(Clone, Copy, Debug, PartialEq, Eq, Structural)]
pub enum BlockType {
    Normal,
    Function,
}

pub type Evaluated = (State, Result<ValueModel, RuntimeError>);

pub type Executed = (State, Result<Flow, RuntimeError>);

pub open spec fn expr_size(e: ExprModel) -> nat
    decreases e,
{
    match e {
        ExprModel::Literal(_) => 1,
        ExprModel::Variable(_) => 1,
        ExprModel::Assign(_, v) => 1 + expr_size(*v),
        ExprModel::Group(i) => 1 + expr_size(*i),
        ExprModel::Unary(_, x) => 1 + expr_size(*x),
        ExprModel::Binary(_, l, r) => 1 + expr_size(*l) + expr_size(*r),
        ExprModel::Logic(_, l, r) => 1 + expr_size(*l) + expr_size(*r),
        ExprModel::Ternary(c, _, l, r) => 1 + expr_size(*c) + expr_size(*l) + expr_size(*r),
        ExprModel::Call(c, _, args) => 1 + expr_size(*c) + exprs_size(args),
        ExprModel::Comma(items) => 1 + exprs_size(items),
    }
}

pub open spec fn exprs_size(es: Seq<ExprModel>) -> nat
    decreases es,
{
    if es.len() == 0 {
        0
    } else {
        1 + expr_size(es[0]) + exprs_size(es.drop_first())
    }
}

pub open spec fn stmt_size(s: StmtModel) -> nat
    decreases s,
{
    match s {
        StmtModel::Expr(e) => 1 + expr_size(e),
        StmtModel::Print(e) => 1 + expr_size(e),
        StmtModel::Var(_, e) => 1 + expr_size(e),
        StmtModel::Block(ss) => 2 + stmts_size(ss),
        StmtModel::If(c, t, e) => 1 + expr_size(c) + stmt_size(*t) + match e {
            Some(b) => stmt_size(*b),
            None => 0,
        },
        StmtModel::While(c, b) => 2 + expr_size(c) + match b {
            Some(b) => stmt_size(*b),
            None => 0,
        },
        StmtModel::Fun(_) => 1,
        StmtModel::Break => 1,
        StmtModel::Return(e) => 1 + match e {
            Some(e) => expr_size(e),
            None => 0,
        },
    }
}

pub open spec fn stmts_size(ss: Seq<StmtModel>) -> nat
    decreases ss,
{
    if ss.len() == 0 {
        0
    } else {
        1 + stmt_size(ss[0]) + stmts_size(ss.drop_first())
    }
}

pub open spec fn opt_size(b: Option<Box<StmtModel>>) -> nat {
    match b {
        Some(b) => stmt_size(*b),
        None => 0,
    }
}

/// The value of the innermost binding of `name` along the chain.
pub open spec fn lookup(scopes: Seq<ScopeModel>, name: Seq<char>) -> Option<ValueModel>
    decreases scopes.len(),
{
    if scopes.len() == 0 {
        None
    } else if find(scopes.last(), name) >= 0 {
        Some(scopes.last()[find(scopes.last(), name)].1)
    } else {
        lookup(scopes.drop_last(), name)
    }
}

/// The chain after rebinding the innermost binding of `name`; `None` where no
/// scope binds it.
pub open spec fn assign_in(scopes: Seq<ScopeModel>, name: Seq<char>, v: ValueModel) -> Option<
    Seq<ScopeModel>,
>
    decreases scopes.len(),
{
    if scopes.len() == 0 {
        None
    } else if find(scopes.last(), name) >= 0 {
        Some(
            scopes.update(
                scopes.len() - 1,
                scopes.last().update(find(scopes.last(), name), (name, v)),
            ),
        )
    } else {
        match assign_in(scopes.drop_last(), name, v) {
            Some(rest) => Some(rest.push(scopes.last())),
            None => None,
        }
    }
}

/// `define` in the current scope.
pub open spec fn define_current(st: State, name: Seq<char>, v: ValueModel) -> State {
    State {
        scopes: st.scopes.update(st.scopes.len() - 1, define_in(st.scopes.last(), name, v)),
        ..st
    }
}

/// The scope of a call: each parameter bound to its argument, in order.
pub open spec fn bind_params(params: Seq<TokenModel>, args: Seq<ValueModel>) -> ScopeModel
    decreases params.len(),
{
    if params.len() == 0 || args.len() == 0 {
        seq![]
    } else {
        define_in(
            bind_params(params.drop_last(), args.drop_last()),
            params.last().lexeme,
            args.last(),
        )
    }
}

pub open spec fn literal_value(l: LiteralModel) -> ValueModel {
    match l {
        LiteralModel::Nil => ValueModel::Nil,
        LiteralModel::Boolean(b) => ValueModel::Boolean(b),
        LiteralModel::Number(n) => ValueModel::Number(n),
        LiteralModel::String(s) => ValueModel::String(s),
    }
}

/// What `clock()` returns: the host clock in seconds.
pub open spec fn clock_value(st: State) -> ValueModel {
    ValueModel::Number(float_quotient(float_of_integer(st.clock), THOUSAND_BITS))
}

/// `!v` and `-v`.
pub open spec fn unary_result(op: TokenModel, v: ValueModel) -> Result<ValueModel, RuntimeError> {
    if op.token_type == TokenType::Bang {
        Ok(ValueModel::Boolean(!truthy(v)))
    } else if op.token_type == TokenType::Minus {
        negate_result(v, op.line)
    } else {
        Err(RuntimeError::TypeError { line: op.line })
    }
}

/// What a call returns from the signal its body ended with.
pub open spec fn returned(r: Result<Flow, RuntimeError>) -> Result<ValueModel, RuntimeError> {
    match r {
        Err(e) => Err(e),
        Ok(Flow::FuncReturn(v)) => Ok(v),
        Ok(_) => Ok(ValueModel::Nil),
    }
}

/// Evaluates an expression.
pub open spec fn eval(st: State, e: ExprModel, fuel: nat) -> Evaluated
    decreases fuel, expr_size(e),
{
    match e {
        ExprModel::Literal(l) => (st, Ok(literal_value(l))),
        ExprModel::Variable(name) => match lookup(st.scopes, name.lexeme) {
            Some(v) => (st, Ok(v)),
            None => (st, Err(RuntimeError::NameError { line: name.line })),
        },
        ExprModel::Assign(name, value) => {
            let (s1, r) = eval(st, *value, fuel);
            match r {
                Err(x) => (s1, Err(x)),
                Ok(v) => match assign_in(s1.scopes, name.lexeme, v) {
                    Some(scopes) => (State { scopes, ..s1 }, Ok(v)),
                    None => (s1, Err(RuntimeError::NameError { line: name.line })),
                },
            }
        },
        ExprModel::Group(inner) => eval(st, *inner, fuel),
        ExprModel::Unary(op, x) => {
            let (s1, r) = eval(st, *x, fuel);
            match r {
                Err(x) => (s1, Err(x)),
                Ok(v) => (s1, unary_result(op, v)),
            }
        },
        ExprModel::Binary(op, l, r) => {
            let (s1, r1) = eval(st, *l, fuel);
            match r1 {
                Err(x) => (s1, Err(x)),
                Ok(a) => {
                    let (s2, r2) = eval(s1, *r, fuel);
                    match r2 {
                        Err(x) => (s2, Err(x)),
                        Ok(b) => (s2, binary_result(op.token_type, a, b, op.line)),
                    }
                },
            }
        },
        ExprModel::Logic(op, l, r) => {
            let (s1, r1) = eval(st, *l, fuel);
            match r1 {
                Err(x) => (s1, Err(x)),
                Ok(a) => if op.token_type == TokenType::Or {
                    if truthy(a) {
                        (s1, Ok(a))
                    } else {
                        eval(s1, *r, fuel)
                    }
                } else {
                    if !truthy(a) {
                        (s1, Ok(a))
                    } else {
                        eval(s1, *r, fuel)
                    }
                },
            }
        },
        ExprModel::Ternary(c, q, l, r) => {
            let (s1, r1) = eval(st, *c, fuel);
            match r1 {
                Err(x) => (s1, Err(x)),
                Ok(ValueModel::Boolean(b)) => if b {
                    eval(s1, *l, fuel)
                } else {
                    eval(s1, *r, fuel)
                },
                Ok(ValueModel::Number(n)) => if num_positive(n) {
                    eval(s1, *l, fuel)
                } else {
                    eval(s1, *r, fuel)
                },
                Ok(_) => (s1, Err(RuntimeError::TypeError { line: q.line })),
            }
        },
        ExprModel::Call(callee, paren, args) => {
            let (s1, r1) = eval(st, *callee, fuel);
            match r1 {
                Err(x) => (s1, Err(x)),
                Ok(f) => {
                    let (s2, r2) = eval_list(s1, args, fuel);
                    match r2 {
                        Err(x) => (s2, Err(x)),
                        Ok(vs) => match f {
                            ValueModel::Function(fm) => if fm.params.len() != vs.len() {
                                (s2, Err(RuntimeError::ArityError { line: paren.line }))
                            } else if fuel == 0 {
                                (s2, Err(RuntimeError::OutOfFuel))
                            } else {
                                let (s3, r3) = run_frame(
                                    s2,
                                    BlockType::Function,
                                    fm.body,
                                    bind_params(fm.params, vs),
                                    (fuel - 1) as nat,
                                );
                                (s3, returned(r3))
                            },
                            ValueModel::Native(_) => if vs.len() != 0 {
                                (s2, Err(RuntimeError::ArityError { line: paren.line }))
                            } else {
                                (s2, Ok(clock_value(s2)))
                            },
                            _ => (s2, Err(RuntimeError::NotCallable { line: paren.line })),
                        },
                    }
                },
            }
        },
        ExprModel::Comma(items) => {
            let (s1, r) = eval_list(st, items, fuel);
            match r {
                Err(x) => (s1, Err(x)),
                Ok(vs) => (s1, Ok(if vs.len() == 0 { ValueModel::Nil } else { vs.last() })),
            }
        },
    }
}

/// Evaluates expressions left to right.
pub open spec fn eval_list(st: State, es: Seq<ExprModel>, fuel: nat) -> (
    State,
    Result<Seq<ValueModel>, RuntimeError>,
)
    decreases fuel, exprs_size(es),
{
    if es.len() == 0 {
        (st, Ok(seq![]))
    } else {
        let (s1, r) = eval(st, es[0], fuel);
        match r {
            Err(x) => (s1, Err(x)),
            Ok(v) => {
                let (s2, rs) = eval_list(s1, es.drop_first(), fuel);
                match rs {
                    Err(x) => (s2, Err(x)),
                    Ok(vs) => (s2, Ok(seq![v] + vs)),
                }
            },
        }
    }
}

/// Runs statements in a new scope `frame`, and leaves it on every path.
pub open spec fn run_frame(
    st: State,
    kind: BlockType,
    ss: Seq<StmtModel>,
    frame: ScopeModel,
    fuel: nat,
) -> Executed
    decreases fuel, stmts_size(ss) + 1,
{
    match kind {
        BlockType::Normal => {
            let (s1, r) = exec_stmts(State { scopes: st.scopes.push(frame), ..st }, ss, fuel);
            (State { scopes: s1.scopes.drop_last(), ..s1 }, r)
        },
        BlockType::Function => {
            let (s1, r) = exec_stmts(State { scopes: seq![st.scopes[0], frame], ..st }, ss, fuel);
            (State { scopes: seq![s1.scopes[0]] + st.scopes.drop_first(), ..s1 }, r)
        },
    }
}

/// Runs statements in the current scope up to the first signal.
pub open spec fn exec_stmts(st: State, ss: Seq<StmtModel>, fuel: nat) -> Executed
    decreases fuel, stmts_size(ss),
{
    if ss.len() == 0 {
        (st, Ok(Flow::Null))
    } else {
        let (s1, r) = exec(st, ss[0], fuel);
        match r {
            Ok(Flow::Null) => exec_stmts(s1, ss.drop_first(), fuel),
            _ => (s1, r),
        }
    }
}

/// Runs a loop; each round runs the body in a scope of its own.
pub open spec fn exec_while(st: State, c: ExprModel, body: Option<Box<StmtModel>>, fuel: nat) -> Executed
    decreases fuel, 1 + expr_size(c) + opt_size(body),
{
    if fuel == 0 {
        (st, Err(RuntimeError::OutOfFuel))
    } else {
        let (s1, r) = eval(st, c, fuel);
        match r {
            Err(x) => (s1, Err(x)),
            Ok(v) => if !truthy(v) {
                (s1, Ok(Flow::Null))
            } else {
                match body {
                    None => exec_while(s1, c, body, (fuel - 1) as nat),
                    Some(b) => {
                        let (s2, r2) = exec(State { scopes: s1.scopes.push(seq![]), ..s1 }, *b, fuel);
                        let s3 = State { scopes: s2.scopes.drop_last(), ..s2 };
                        match r2 {
                            Err(x) => (s3, Err(x)),
                            Ok(Flow::LoopBreak) => (s3, Ok(Flow::Null)),
                            Ok(Flow::FuncReturn(v)) => (s3, Ok(Flow::FuncReturn(v))),
                            Ok(_) => exec_while(s3, c, body, (fuel - 1) as nat),
                        }
                    },
                }
            },
        }
    }
}

/// Executes a statement.
pub open spec fn exec(st: State, s: StmtModel, fuel: nat) -> Executed
    decreases fuel, stmt_size(s),
{
    match s {
        StmtModel::Expr(e) => {
            let (s1, r) = eval(st, e, fuel);
            match r {
                Err(x) => (s1, Err(x)),
                Ok(_) => (s1, Ok(Flow::Null)),
            }
        },
        StmtModel::Print(e) => {
            let (s1, r) = eval(st, e, fuel);
            match r {
                Err(x) => (s1, Err(x)),
                Ok(v) => (State { output: s1.output.push(stringify(v)), ..s1 }, Ok(Flow::Null)),
            }
        },
        StmtModel::Var(name, init) => {
            let (s1, r) = eval(st, init, fuel);
            match r {
                Err(x) => (s1, Err(x)),
                Ok(v) => (define_current(s1, name.lexeme, v), Ok(Flow::Null)),
            }
        },
        StmtModel::Block(ss) => run_frame(st, BlockType::Normal, ss, seq![], fuel),
        StmtModel::If(c, t, e) => {
            let (s1, r) = eval(st, c, fuel);
            match r {
                Err(x) => (s1, Err(x)),
                Ok(v) => if truthy(v) {
                    exec(s1, *t, fuel)
                } else {
                    match e {
                        Some(b) => exec(s1, *b, fuel),
                        None => (s1, Ok(Flow::Null)),
                    }
                },
            }
        },
        StmtModel::While(c, b) => exec_while(st, c, b, fuel),
        StmtModel::Fun(f) => (
            define_current(st, f.name.lexeme, ValueModel::Function(f)),
            Ok(Flow::Null),
        ),
        StmtModel::Break => (st, Ok(Flow::LoopBreak)),
        StmtModel::Return(e) => match e {
            None => (st, Ok(Flow::FuncReturn(ValueModel::Nil))),
            Some(x) => {
                let (s1, r) = eval(st, x, fuel);
                match r {
                    Err(x) => (s1, Err(x)),
                    Ok(v) => (s1, Ok(Flow::FuncReturn(v))),
                }
            },
        },
    }
}

/// Runs a program: each statement with the full fuel, up to the first
/// runtime error. A signal that reaches the top level ends only its statement.
pub open spec fn run(st: State, ss: Seq<StmtModel>) -> (State, Result<(), RuntimeError>)
    decreases ss.len(),
{
    if ss.len() == 0 {
        (st, Ok(()))
    } else {
        let (s1, r) = exec(st, ss[0], FUEL as nat);
        match r {
            Err(x) => (s1, Err(x)),
            Ok(_) => run(s1, ss.drop_first()),
        }
    }
}

} // verus!
