//! The tree-walking interpreter. Each method agrees with its spec function in
//! `semantics`: the state it leaves and the result it returns are the ones
//! the semantics gives.
use crate::environment::{define_in, scope_model, Environment, ScopeModel};
use crate::expr::{expr_model, exprs_model, lemma_exprs_model, literal_model, tokens_model, Expr, ExprModel};
use crate::number::{Number, THOUSAND_BITS};
use crate::semantics::{
    assign_in, bind_params, clock_value, eval, eval_list, exec, exec_stmts, exec_while, expr_size,
    exprs_size, literal_value, lookup, opt_size, returned, run, run_frame, stmt_size, stmts_size,
    BlockType, Flow, State, FUEL,
};
use crate::stmt::{copy_fun, fun_model, lemma_stmts_model, stmt_model, stmts_model, FunStmt, Stmt, StmtModel};
use crate::token::{Literal, Token, TokenType};
use crate::value::{
    binary_op, copy_value, result_model, value_model, Function, NativeFn, RuntimeError, Value,
    ValueModel,
};
use vstd::prelude::*;

verus! {

/// The signal with which a statement ends.
#[derive(Debug)]
pub enum BlockBreak {
    Null,
    Continue,
    LoopBreak,
    FuncReturn(Value),
}

pub open spec fn flow_model(b: BlockBreak) -> Flow {
    match b {
        BlockBreak::Null => Flow::Null,
        BlockBreak::Continue => Flow::Continue,
        BlockBreak::LoopBreak => Flow::LoopBreak,
        BlockBreak::FuncReturn(v) => Flow::FuncReturn(value_model(v)),
    }
}

pub open spec fn flow_result(r: Result<BlockBreak, RuntimeError>) -> Result<Flow, RuntimeError> {
    match r {
        Ok(b) => Ok(flow_model(b)),
        Err(e) => Err(e),
    }
}

pub open spec fn values_model(vs: Seq<Value>) -> Seq<ValueModel> {
    vs.map_values(|v: Value| value_model(v))
}

pub open spec fn values_result(r: Result<Vec<Value>, RuntimeError>) -> Result<
    Seq<ValueModel>,
    RuntimeError,
> {
    match r {
        Ok(vs) => Ok(values_model(vs@)),
        Err(e) => Err(e),
    }
}

/// `(s, r)` with `vs` put in front of the values of `r`.
pub open spec fn prepend(vs: Seq<ValueModel>, x: (State, Result<Seq<ValueModel>, RuntimeError>)) -> (
    State,
    Result<Seq<ValueModel>, RuntimeError>,
) {
    (
        x.0,
        match x.1 {
            Err(e) => Err(e),
            Ok(rest) => Ok(vs + rest),
        },
    )
}

pub open spec fn opt_box_model(b: Option<Box<Stmt>>) -> Option<Box<StmtModel>> {
    match b {
        Some(b) => Some(Box::new(stmt_model(*b))),
        None => None,
    }
}

proof fn lemma_prepend(vs: Seq<ValueModel>, v: ValueModel, x: (State, Result<Seq<ValueModel>, RuntimeError>))
    ensures
        prepend(vs, prepend(seq![v], x)) == prepend(vs.push(v), x),
{
    match x.1 {
        Ok(rest) => {
            assert(vs + (seq![v] + rest) =~= vs.push(v) + rest);
        },
        Err(_) => {},
    }
}

proof fn lemma_exprs_size(es: Seq<ExprModel>, i: int)
    requires
        0 <= i < es.len(),
    ensures
        expr_size(es[i]) < exprs_size(es),
        exprs_size(es.subrange(i + 1, es.len() as int)) < exprs_size(es.subrange(i, es.len() as int)),
    decreases i,
{
    assert(es.subrange(i, es.len() as int).drop_first() =~= es.subrange(i + 1, es.len() as int));
    if i > 0 {
        lemma_exprs_size(es.drop_first(), i - 1);
        assert(es.drop_first()[i - 1] == es[i]);
    }
}

proof fn lemma_stmts_size(ss: Seq<StmtModel>, i: int)
    requires
        0 <= i < ss.len(),
    ensures
        stmt_size(ss[i]) < stmts_size(ss),
    decreases i,
{
    if i > 0 {
        lemma_stmts_size(ss.drop_first(), i - 1);
        assert(ss.drop_first()[i - 1] == ss[i]);
    }
}

fn literal_to_value(l: &Literal) -> (r: Value)
    ensures
        value_model(r) == literal_value(literal_model(*l)),
{
    match l {
        Literal::Nil => Value::Nil,
        Literal::Boolean(b) => Value::Boolean(*b),
        Literal::Number(n) => Value::Number(*n),
        Literal::String(s) => Value::String(s.clone()),
    }
}

/// The scope of a call: each parameter bound to its argument, in order.
fn bind_arguments(params: &Vec<Token>, args: &Vec<Value>) -> (r: Environment)
    requires
        params@.len() == args@.len(),
    ensures
        scope_model(r) == bind_params(tokens_model(params@), values_model(args@)),
{
    let ghost ps = tokens_model(params@);
    let ghost vs = values_model(args@);
    let mut env = Environment::new();
    let mut i: usize = 0;
    assert(ps.subrange(0, 0).len() == 0);
    while i < params.len()
        invariant
            i <= params@.len(),
            params@.len() == args@.len(),
            ps == tokens_model(params@),
            vs == values_model(args@),
            scope_model(env) == bind_params(ps.subrange(0, i as int), vs.subrange(0, i as int)),
        decreases params@.len() - i,
    {
        let v = copy_value(&args[i]);
        env.define(&params[i].lexeme, v);
        proof {
            assert(ps.subrange(0, i + 1).drop_last() =~= ps.subrange(0, i as int));
            assert(vs.subrange(0, i + 1).drop_last() =~= vs.subrange(0, i as int));
        }
        i += 1;
    }
    assert(ps.subrange(0, i as int) =~= ps);
    assert(vs.subrange(0, i as int) =~= vs);
    env
}

pub struct Interpreter {
    scopes: Vec<Environment>,
    output: Vec<String>,
    clock: u64,
}

impl Interpreter {
    /// The model of the interpreter: its chain of scopes, globals first; the
    /// lines printed and not yet taken; the host clock.
    pub closed spec fn view(&self) -> State {
        State {
            scopes: self.scopes@.map_values(|e: Environment| scope_model(e)),
            output: self.output@.map_values(|s: String| s@),
            clock: self.clock,
        }
    }

    /// The globals scope is always there.
    pub closed spec fn wf(&self) -> bool {
        self.scopes@.len() >= 1
    }

    /// A fresh interpreter: globals that bind `clock`, and no output.
    pub fn new() -> (r: Interpreter)
        ensures
            r.wf(),
            r@.scopes == seq![seq![("clock"@, ValueModel::Native(NativeFn::Clock))]],
            r@.output == Seq::<Seq<char>>::empty(),
            r@.clock == 0,
    {
        let mut globals = Environment::new();
        let name = String::from_str("clock");
        globals.define(&name, Value::Native(NativeFn::Clock));
        let mut scopes: Vec<Environment> = Vec::new();
        scopes.push(globals);
        let r = Interpreter { scopes, output: Vec::new(), clock: 0 };
        assert(r@.scopes =~= seq![seq![("clock"@, ValueModel::Native(NativeFn::Clock))]]);
        assert(r@.output =~= Seq::<Seq<char>>::empty());
        r
    }

    /// Hands in the host clock, in milliseconds; `clock()` reads it.
    pub fn set_clock(&mut self, millis: u64)
        requires
            old(self).wf(),
        ensures
            final(self).wf(),
            final(self)@ == (State { clock: millis, ..old(self)@ }),
    {
        self.clock = millis;
    }

    /// The lines printed since the last call; the interpreter forgets them.
    pub fn take_output(&mut self) -> (r: Vec<String>)
        requires
            old(self).wf(),
        ensures
            final(self).wf(),
            r@.map_values(|s: String| s@) == old(self)@.output,
            final(self)@ == (State { output: Seq::<Seq<char>>::empty(), ..old(self)@ }),
    {
        let mut r: Vec<String> = Vec::new();
        r.append(&mut self.output);
        assert(r@ =~= old(self).output@);
        assert(self@.output =~= Seq::<Seq<char>>::empty());
        r
    }

    fn lookup_var(&self, name: &String, line: usize) -> (r: Result<Value, RuntimeError>)
        requires
            self.wf(),
        ensures
            result_model(r) == match lookup(self@.scopes, name@) {
                Some(v) => Ok::<ValueModel, RuntimeError>(v),
                None => Err(RuntimeError::NameError { line }),
            },
    {
        let ghost sc = self@.scopes;
        let mut j: usize = self.scopes.len();
        assert(sc.subrange(0, j as int) =~= sc);
        while j > 0
            invariant
                j <= self.scopes@.len(),
                sc == self@.scopes,
                lookup(sc, name@) == lookup(sc.subrange(0, j as int), name@),
            decreases j,
        {
            proof {
                assert(sc.subrange(0, j as int).drop_last() =~= sc.subrange(0, j - 1));
                assert(sc.subrange(0, j as int).last() == scope_model(self.scopes@[j - 1]));
            }
            match self.scopes[j - 1].get(name) {
                Some(v) => return Ok(v),
                None => {},
            }
            j -= 1;
        }
        Err(RuntimeError::NameError { line })
    }

    /// Rebinds the innermost binding of `name`; reports whether there was one.
    fn assign_var(&mut self, name: &String, v: Value) -> (r: bool)
        requires
            old(self).wf(),
        ensures
            final(self).wf(),
            final(self).scopes@.len() == old(self).scopes@.len(),
            match assign_in(old(self)@.scopes, name@, value_model(v)) {
                Some(scopes) => r && final(self)@ == (State { scopes, ..old(self)@ }),
                None => !r && final(self)@ == old(self)@,
            },
    {
        let ghost sc = self@.scopes;
        let ghost vm = value_model(v);
        let ghost n: int = sc.len() as int;
        let mut j: usize = self.scopes.len();
        assert(sc.subrange(0, j as int) =~= sc);
        assert(sc.subrange(j as int, n) =~= Seq::<ScopeModel>::empty());
        while j > 0 && !self.scopes[j - 1].binds(name)
            invariant
                j <= self.scopes@.len(),
                n == sc.len(),
                sc == self@.scopes,
                assign_in(sc, name@, vm) == match assign_in(sc.subrange(0, j as int), name@, vm) {
                    Some(r) => Some(r + sc.subrange(j as int, n)),
                    None => None::<Seq<ScopeModel>>,
                },
            decreases j,
        {
            proof {
                let pre = sc.subrange(0, j as int);
                assert(pre.drop_last() =~= sc.subrange(0, j - 1));
                assert(pre.last() == scope_model(self.scopes@[j - 1]));
                match assign_in(pre.drop_last(), name@, vm) {
                    Some(r) => {
                        assert(r.push(pre.last()) + sc.subrange(j as int, n) =~= r + sc.subrange(
                            j - 1,
                            n,
                        ));
                    },
                    None => {},
                }
            }
            j -= 1;
        }
        if j == 0 {
            return false;
        }
        let ghost pre = sc.subrange(0, j as int);
        proof {
            assert(pre.last() == scope_model(self.scopes@[j - 1]));
            crate::environment::lemma_find(pre.last(), name@);
        }
        let ghost old_envs = self.scopes@;
        let ghost old_env = self.scopes@[j - 1];
        let c = copy_value(&v);
        let ok = self.scopes[j - 1].assign(name, c);
        proof {
            assert(self.scopes@ == old_envs.update(j - 1, self.scopes@[j - 1]));
            assert(self@.scopes =~= sc.update(j - 1, pre.last().update(
                crate::environment::find(pre.last(), name@),
                (name@, vm),
            )));
            let s2 = pre.update(j - 1, pre.last().update(
                crate::environment::find(pre.last(), name@),
                (name@, vm),
            ));
            assert(s2 + sc.subrange(j as int, n) =~= self@.scopes);
        }
        ok
    }

    /// `define` in the current scope.
    fn define_current(&mut self, name: &String, v: Value)
        requires
            old(self).wf(),
        ensures
            final(self).wf(),
            final(self).scopes@.len() == old(self).scopes@.len(),
            final(self)@ == crate::semantics::define_current(old(self)@, name@, value_model(v)),
    {
        let n = self.scopes.len();
        self.scopes[n - 1].define(name, v);
        assert(self@.scopes =~= old(self)@.scopes.update(
            n - 1,
            define_in(old(self)@.scopes.last(), name@, value_model(v)),
        ));
    }

    fn clock_now(&self) -> (r: Value)
        ensures
            value_model(r) == clock_value(self@),
    {
        let ms = Number::from_integer(self.clock);
        Value::Number(ms.div(&Number::from_bits(THOUSAND_BITS)))
    }
}

impl Interpreter {
    fn eval(&mut self, e: &Expr, fuel: u64) -> (r: Result<Value, RuntimeError>)
        requires
            old(self).wf(),
        ensures
            final(self).wf(),
            final(self).scopes@.len() == old(self).scopes@.len(),
            (final(self)@, result_model(r)) == eval(old(self)@, expr_model(*e), fuel as nat),
        decreases fuel, expr_size(expr_model(*e)),
    {
        match e {
            Expr::Literal(l) => Ok(literal_to_value(l)),
            Expr::Variable(v) => self.lookup_var(&v.name.lexeme, v.name.line),
            Expr::Assign(a) => {
                let v = match self.eval(&a.value, fuel) {
                    Err(x) => return Err(x),
                    Ok(v) => v,
                };
                let c = copy_value(&v);
                if self.assign_var(&a.name.lexeme, c) {
                    Ok(v)
                } else {
                    Err(RuntimeError::NameError { line: a.name.line })
                }
            },
            Expr::Group(g) => self.eval(&g.expr, fuel),
            Expr::Unary(u) => {
                let v = match self.eval(&u.expr, fuel) {
                    Err(x) => return Err(x),
                    Ok(v) => v,
                };
                if u.operator.token_type == TokenType::Bang {
                    Ok(Value::Boolean(!v.is_truthy()))
                } else if u.operator.token_type == TokenType::Minus {
                    v.negate(u.operator.line)
                } else {
                    Err(RuntimeError::TypeError { line: u.operator.line })
                }
            },
            Expr::Binary(b) => {
                let a = match self.eval(&b.lhs, fuel) {
                    Err(x) => return Err(x),
                    Ok(v) => v,
                };
                let c = match self.eval(&b.rhs, fuel) {
                    Err(x) => return Err(x),
                    Ok(v) => v,
                };
                binary_op(b.operator.token_type, a, c, b.operator.line)
            },
            Expr::Logic(l) => {
                let a = match self.eval(&l.lhs, fuel) {
                    Err(x) => return Err(x),
                    Ok(v) => v,
                };
                if l.operator.token_type == TokenType::Or {
                    if a.is_truthy() {
                        Ok(a)
                    } else {
                        self.eval(&l.rhs, fuel)
                    }
                } else {
                    if !a.is_truthy() {
                        Ok(a)
                    } else {
                        self.eval(&l.rhs, fuel)
                    }
                }
            },
            Expr::Ternary(t) => {
                let c = match self.eval(&t.cond, fuel) {
                    Err(x) => return Err(x),
                    Ok(v) => v,
                };
                match c {
                    Value::Boolean(b) => if b {
                        self.eval(&t.lhs, fuel)
                    } else {
                        self.eval(&t.rhs, fuel)
                    },
                    Value::Number(n) => if n.is_positive() {
                        self.eval(&t.lhs, fuel)
                    } else {
                        self.eval(&t.rhs, fuel)
                    },
                    _ => Err(RuntimeError::TypeError { line: t.question.line }),
                }
            },
            Expr::Call(c) => {
                let f = match self.eval(&c.callee, fuel) {
                    Err(x) => return Err(x),
                    Ok(v) => v,
                };
                let args = match self.eval_list(&c.arguments, fuel) {
                    Err(x) => return Err(x),
                    Ok(vs) => vs,
                };
                let line = c.paren.line;
                match f {
                    Value::Function(func) => {
                        if func.arity() != args.len() {
                            Err(RuntimeError::ArityError { line })
                        } else if fuel == 0 {
                            Err(RuntimeError::OutOfFuel)
                        } else {
                            let frame = bind_arguments(&func.declaration.parameters, &args);
                            let r = self.execute_block(
                                BlockType::Function,
                                &func.declaration.block,
                                frame,
                                fuel - 1,
                            );
                            match r {
                                Err(x) => Err(x),
                                Ok(BlockBreak::FuncReturn(v)) => Ok(v),
                                Ok(_) => Ok(Value::Nil),
                            }
                        }
                    },
                    Value::Native(n) => {
                        if n.arity() != args.len() {
                            Err(RuntimeError::ArityError { line })
                        } else {
                            Ok(self.clock_now())
                        }
                    },
                    _ => Err(RuntimeError::NotCallable { line }),
                }
            },
            Expr::Comma(c) => {
                let mut vs = match self.eval_list(&c.internal, fuel) {
                    Err(x) => return Err(x),
                    Ok(vs) => vs,
                };
                match vs.pop() {
                    Some(v) => Ok(v),
                    None => Ok(Value::Nil),
                }
            },
        }
    }

    /// Evaluates expressions left to right.
    fn eval_list(&mut self, es: &Vec<Expr>, fuel: u64) -> (r: Result<Vec<Value>, RuntimeError>)
        requires
            old(self).wf(),
        ensures
            final(self).wf(),
            final(self).scopes@.len() == old(self).scopes@.len(),
            (final(self)@, values_result(r)) == eval_list(old(self)@, exprs_model(es@), fuel as nat),
        decreases fuel, exprs_size(exprs_model(es@)),
    {
        let ghost m = exprs_model(es@);
        let ghost n = es@.len() as int;
        proof {
            lemma_exprs_model(es@);
        }
        let mut vals: Vec<Value> = Vec::new();
        let mut i: usize = 0;
        assert(m.subrange(0, n) =~= m);
        assert(values_model(vals@) =~= seq![]);
        assert(prepend(seq![], eval_list(self@, m, fuel as nat)) == eval_list(self@, m, fuel as nat));
        while i < es.len()
            invariant
                self.wf(),
                self.scopes@.len() == old(self).scopes@.len(),
                m == exprs_model(es@),
                n == es@.len(),
                m.len() == n,
                i <= n,
                forall|k: int| 0 <= k < n ==> #[trigger] m[k] == expr_model(es@[k]),
                eval_list(old(self)@, m, fuel as nat) == prepend(
                    values_model(vals@),
                    eval_list(self@, m.subrange(i as int, n), fuel as nat),
                ),
            decreases n - i,
        {
            let ghost rest = m.subrange(i as int, n);
            proof {
                lemma_exprs_size(m, i as int);
                assert(rest[0] == m[i as int]);
                assert(rest.drop_first() =~= m.subrange(i + 1, n));
            }
            let v = match self.eval(&es[i], fuel) {
                Err(x) => return Err(x),
                Ok(v) => v,
            };
            proof {
                lemma_prepend(values_model(vals@), value_model(v), eval_list(self@, m.subrange(i + 1, n), fuel as nat));
                assert(values_model(vals@.push(v)) =~= values_model(vals@).push(value_model(v)));
            }
            vals.push(v);
            i += 1;
        }
        proof {
            assert(values_model(vals@) + seq![] =~= values_model(vals@));
        }
        Ok(vals)
    }

    /// Runs `stmts` in the new scope `frame` and leaves it again, on every
    /// path: the current scope afterwards is the one before.
    fn execute_block(&mut self, block_type: BlockType, stmts: &Vec<Stmt>, frame: Environment, fuel: u64) -> (r:
        Result<BlockBreak, RuntimeError>)
        requires
            old(self).wf(),
        ensures
            final(self).wf(),
            final(self).scopes@.len() == old(self).scopes@.len(),
            (final(self)@, flow_result(r)) == run_frame(
                old(self)@,
                block_type,
                stmts_model(stmts@),
                scope_model(frame),
                fuel as nat,
            ),
        decreases fuel, stmts_size(stmts_model(stmts@)) + 1,
    {
        let ghost fm = scope_model(frame);
        match block_type {
            BlockType::Normal => {
                self.scopes.push(frame);
                assert(self@.scopes =~= old(self)@.scopes.push(fm));
                let r = self.execute_stmts(stmts, fuel);
                let ghost mid = self@;
                self.scopes.pop();
                assert(self@.scopes =~= mid.scopes.drop_last());
                r
            },
            BlockType::Function => {
                let mut saved = self.scopes.split_off(1);
                self.scopes.push(frame);
                assert(self@.scopes =~= seq![old(self)@.scopes[0], fm]);
                let r = self.execute_stmts(stmts, fuel);
                let ghost mid = self@;
                self.scopes.truncate(1);
                self.scopes.append(&mut saved);
                assert(self@.scopes =~= seq![mid.scopes[0]] + old(self)@.scopes.drop_first());
                r
            },
        }
    }

    /// Runs statements in the current scope up to the first signal.
    fn execute_stmts(&mut self, stmts: &Vec<Stmt>, fuel: u64) -> (r: Result<BlockBreak, RuntimeError>)
        requires
            old(self).wf(),
        ensures
            final(self).wf(),
            final(self).scopes@.len() == old(self).scopes@.len(),
            (final(self)@, flow_result(r)) == exec_stmts(old(self)@, stmts_model(stmts@), fuel as nat),
        decreases fuel, stmts_size(stmts_model(stmts@)),
    {
        let ghost m = stmts_model(stmts@);
        let ghost n = stmts@.len() as int;
        proof {
            lemma_stmts_model(stmts@);
        }
        let mut i: usize = 0;
        assert(m.subrange(0, n) =~= m);
        while i < stmts.len()
            invariant
                self.wf(),
                self.scopes@.len() == old(self).scopes@.len(),
                m == stmts_model(stmts@),
                n == stmts@.len(),
                m.len() == n,
                i <= n,
                forall|k: int| 0 <= k < n ==> #[trigger] m[k] == stmt_model(stmts@[k]),
                exec_stmts(old(self)@, m, fuel as nat) == exec_stmts(
                    self@,
                    m.subrange(i as int, n),
                    fuel as nat,
                ),
            decreases n - i,
        {
            let ghost rest = m.subrange(i as int, n);
            proof {
                lemma_stmts_size(m, i as int);
                assert(rest[0] == m[i as int]);
                assert(rest.drop_first() =~= m.subrange(i + 1, n));
            }
            let r = self.execute(&stmts[i], fuel);
            match r {
                Ok(BlockBreak::Null) => {},
                _ => return r,
            }
            i += 1;
        }
        Ok(BlockBreak::Null)
    }

    /// Runs a loop; each round runs the body in a scope of its own.
    fn exec_while(&mut self, cond: &Expr, body: &Option<Box<Stmt>>, fuel: u64) -> (r: Result<
        BlockBreak,
        RuntimeError,
    >)
        requires
            old(self).wf(),
        ensures
            final(self).wf(),
            final(self).scopes@.len() == old(self).scopes@.len(),
            (final(self)@, flow_result(r)) == exec_while(
                old(self)@,
                expr_model(*cond),
                opt_box_model(*body),
                fuel as nat,
            ),
        decreases fuel, 1 + expr_size(expr_model(*cond)) + opt_size(opt_box_model(*body)),
    {
        let ghost c = expr_model(*cond);
        let ghost b = opt_box_model(*body);
        let mut f: u64 = fuel;
        loop
            invariant
                self.wf(),
                self.scopes@.len() == old(self).scopes@.len(),
                c == expr_model(*cond),
                b == opt_box_model(*body),
                f <= fuel,
                exec_while(old(self)@, c, b, fuel as nat) == exec_while(self@, c, b, f as nat),
            decreases f,
        {
            if f == 0 {
                return Err(RuntimeError::OutOfFuel);
            }
            let v = match self.eval(cond, f) {
                Err(x) => return Err(x),
                Ok(v) => v,
            };
            if !v.is_truthy() {
                return Ok(BlockBreak::Null);
            }
            match body {
                None => {},
                Some(s) => {
                    let ghost before = self@;
                    self.scopes.push(Environment::new());
                    assert(self@.scopes =~= before.scopes.push(seq![]));
                    let r = self.execute(s, f);
                    let ghost mid = self@;
                    self.scopes.pop();
                    assert(self@.scopes =~= mid.scopes.drop_last());
                    match r {
                        Err(x) => return Err(x),
                        Ok(BlockBreak::LoopBreak) => return Ok(BlockBreak::Null),
                        Ok(BlockBreak::FuncReturn(v)) => return Ok(BlockBreak::FuncReturn(v)),
                        Ok(_) => {},
                    }
                },
            }
            f = f - 1;
        }
    }

    /// Executes one statement.
    fn execute(&mut self, s: &Stmt, fuel: u64) -> (r: Result<BlockBreak, RuntimeError>)
        requires
            old(self).wf(),
        ensures
            final(self).wf(),
            final(self).scopes@.len() == old(self).scopes@.len(),
            (final(self)@, flow_result(r)) == exec(old(self)@, stmt_model(*s), fuel as nat),
        decreases fuel, stmt_size(stmt_model(*s)),
    {
        match s {
            Stmt::Expr(e) => match self.eval(&e.expr, fuel) {
                Err(x) => Err(x),
                Ok(_) => Ok(BlockBreak::Null),
            },
            Stmt::Print(p) => {
                let v = match self.eval(&p.expr, fuel) {
                    Err(x) => return Err(x),
                    Ok(v) => v,
                };
                let text = v.stringify();
                let ghost before = self@;
                self.output.push(text);
                assert(self@.output =~= before.output.push(text@));
                Ok(BlockBreak::Null)
            },
            Stmt::Var(v) => {
                let value = match self.eval(&v.initializer, fuel) {
                    Err(x) => return Err(x),
                    Ok(x) => x,
                };
                self.define_current(&v.token.lexeme, value);
                Ok(BlockBreak::Null)
            },
            Stmt::Block(b) => self.execute_block(
                BlockType::Normal,
                &b.statements,
                Environment::new(),
                fuel,
            ),
            Stmt::If(i) => {
                let c = match self.eval(&i.cond, fuel) {
                    Err(x) => return Err(x),
                    Ok(v) => v,
                };
                if c.is_truthy() {
                    self.execute(&i.then_branch, fuel)
                } else {
                    match &i.else_branch {
                        Some(b) => self.execute(b, fuel),
                        None => Ok(BlockBreak::Null),
                    }
                }
            },
            Stmt::While(w) => self.exec_while(&w.cond, &w.body, fuel),
            Stmt::Fun(f) => {
                let function = Value::Function(Function::new(copy_fun(f)));
                self.define_current(&f.name.lexeme, function);
                Ok(BlockBreak::Null)
            },
            Stmt::Break(_) => Ok(BlockBreak::LoopBreak),
            Stmt::Return(r) => match &r.expr {
                None => Ok(BlockBreak::FuncReturn(Value::Nil)),
                Some(e) => match self.eval(e, fuel) {
                    Err(x) => Err(x),
                    Ok(v) => Ok(BlockBreak::FuncReturn(v)),
                },
            },
        }
    }
}

impl Interpreter {
    /// Evaluates one expression with the full fuel.
    pub fn evaluate(&mut self, expr: &Expr) -> (r: Result<Value, RuntimeError>)
        requires
            old(self).wf(),
        ensures
            final(self).wf(),
            (final(self)@, result_model(r)) == eval(old(self)@, expr_model(*expr), FUEL as nat),
    {
        self.eval(expr, FUEL)
    }

    /// Calls a declared function on `arguments`, in a scope whose parent is
    /// the globals; what the body returns, or `nil`.
    pub fn execute_function(&mut self, arguments: Vec<Value>, stmt: &FunStmt) -> (r: Result<
        Value,
        RuntimeError,
    >)
        requires
            old(self).wf(),
        ensures
            final(self).wf(),
            final(self)@.scopes.len() == old(self)@.scopes.len(),
            arguments@.len() != stmt.parameters@.len() ==> final(self)@ == old(self)@ && r
                == Err::<Value, RuntimeError>(RuntimeError::ArityError { line: stmt.name.line }),
            arguments@.len() == stmt.parameters@.len() ==> ({
                let (s, f) = run_frame(
                    old(self)@,
                    BlockType::Function,
                    fun_model(*stmt).body,
                    bind_params(fun_model(*stmt).params, values_model(arguments@)),
                    (FUEL - 1) as nat,
                );
                final(self)@ == s && result_model(r) == returned(f)
            }),
    {
        if arguments.len() != stmt.parameters.len() {
            return Err(RuntimeError::ArityError { line: stmt.name.line });
        }
        let frame = bind_arguments(&stmt.parameters, &arguments);
        match self.execute_block(BlockType::Function, &stmt.block, frame, FUEL - 1) {
            Err(x) => Err(x),
            Ok(BlockBreak::FuncReturn(v)) => Ok(v),
            Ok(_) => Ok(Value::Nil),
        }
    }

    /// Runs a program: each statement in turn with the full fuel, up to the
    /// first runtime error. Printed lines collect in the output.
    pub fn interpret(&mut self, stmts: Vec<Stmt>) -> (r: Result<(), RuntimeError>)
        requires
            old(self).wf(),
        ensures
            final(self).wf(),
            final(self)@.scopes.len() == old(self)@.scopes.len(),
            (final(self)@, r) == run(old(self)@, stmts_model(stmts@)),
    {
        let ghost m = stmts_model(stmts@);
        let ghost n = stmts@.len() as int;
        proof {
            lemma_stmts_model(stmts@);
        }
        let mut i: usize = 0;
        assert(m.subrange(0, n) =~= m);
        while i < stmts.len()
            invariant
                self.wf(),
                self.scopes@.len() == old(self).scopes@.len(),
                m == stmts_model(stmts@),
                n == stmts@.len(),
                m.len() == n,
                i <= n,
                forall|k: int| 0 <= k < n ==> #[trigger] m[k] == stmt_model(stmts@[k]),
                run(old(self)@, m) == run(self@, m.subrange(i as int, n)),
            decreases n - i,
        {
            let ghost rest = m.subrange(i as int, n);
            proof {
                assert(rest[0] == m[i as int]);
                assert(rest.drop_first() =~= m.subrange(i + 1, n));
            }
            match self.execute(&stmts[i], FUEL) {
                Err(x) => return Err(x),
                Ok(_) => {},
            }
            i += 1;
        }
        Ok(())
    }

    /// Runs one line of an interactive session; definitions stay for the next.
    pub fn interpret_repl(&mut self, stmts: Vec<Stmt>) -> (r: Result<(), RuntimeError>)
        requires
            old(self).wf(),
        ensures
            final(self).wf(),
            (final(self)@, r) == run(old(self)@, stmts_model(stmts@)),
    {
        self.interpret(stmts)
    }
}

} // verus!
