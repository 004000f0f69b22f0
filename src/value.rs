//! Runtime values, their model, and the operators of the language.
use crate::number::{
    decimal_text, float_difference, float_product, float_quotient, float_sum, negated, num_eq,
    num_lt, Number, RENDER_DIGITS, RENDER_MAX_ZEROS,
};
use crate::stmt::{copy_fun, fun_model, same_fun, FunModel, FunStmt};
use crate::token::TokenType;
use vstd::prelude::*;

verus! {

/// A function of the host, bound in the global scope.
#[derive(Clone, Copy, Debug, PartialEq, Eq, Structural)]
pub enum NativeFn {
    /// `clock()`: seconds on the host clock, as last handed to the interpreter.
    Clock,
}

/// A function declared in the program.
#[derive(Debug)]
pub struct Function {
    pub declaration: FunStmt,
}

#[derive(Debug)]
pub enum Value {
    Nil,
    Boolean(bool),
    Number(Number),
    String(String),
    Function(Function),
    Native(NativeFn),
}

/// A runtime error, with the line of the nearest token where there is one.
#[derive(Clone, Copy, Debug, PartialEq, Eq, Structural)]
pub enum RuntimeError {
    /// An operand of the wrong kind.
    TypeError { line: usize },
    /// A call with a number of arguments other than the callee's arity.
    ArityError { line: usize },
    /// A name that no enclosing scope defines.
    NameError { line: usize },
    /// A call of a value that is not a function.
    NotCallable { line: usize },
    /// The budget of calls and loop rounds ran out.
    OutOfFuel,
}

/// The model of a value.
pub enum ValueModel {
    Nil,
    Boolean(bool),
    Number(u64),
    String(Seq<char>),
    Function(FunModel),
    Native(NativeFn),
}

pub open spec fn value_model(v: Value) -> ValueModel {
    match v {
        Value::Nil => ValueModel::Nil,
        Value::Boolean(b) => ValueModel::Boolean(b),
        Value::Number(n) => ValueModel::Number(n.bits),
        Value::String(s) => ValueModel::String(s@),
        Value::Function(f) => ValueModel::Function(fun_model(f.declaration)),
        Value::Native(n) => ValueModel::Native(n),
    }
}

pub open spec fn result_model(r: Result<Value, RuntimeError>) -> Result<ValueModel, RuntimeError> {
    match r {
        Ok(v) => Ok(value_model(v)),
        Err(e) => Err(e),
    }
}

/// Every value is truthy but `nil` and `false`.
pub open spec fn truthy(v: ValueModel) -> bool {
    !(v is Nil || v == ValueModel::Boolean(false))
}

pub open spec fn number_text(n: u64) -> Seq<char> {
    decimal_text(n, RENDER_MAX_ZEROS, RENDER_DIGITS)
}

/// How `print` shows a value.
pub open spec fn stringify(v: ValueModel) -> Seq<char> {
    match v {
        ValueModel::Nil => "nil"@,
        ValueModel::Boolean(b) => if b {
            "true"@
        } else {
            "false"@
        },
        ValueModel::Number(n) => number_text(n),
        ValueModel::String(s) => s,
        ValueModel::Function(f) => "<fn "@ + f.name.lexeme + ">"@,
        ValueModel::Native(_) => "<native fn>"@,
    }
}

/// Unary `-`: numbers only.
pub open spec fn negate_result(v: ValueModel, line: usize) -> Result<ValueModel, RuntimeError> {
    match v {
        ValueModel::Number(n) => Ok(ValueModel::Number(negated(n))),
        _ => Err(RuntimeError::TypeError { line }),
    }
}

/// `==`: `nil` equals only `nil`; values of one kind compare by value, a
/// function by its declaration; other pairs are a type error.
pub open spec fn equal_result(a: ValueModel, b: ValueModel, line: usize) -> Result<bool, RuntimeError> {
    match (a, b) {
        (ValueModel::Nil, ValueModel::Nil) => Ok(true),
        (ValueModel::Nil, _) => Ok(false),
        (_, ValueModel::Nil) => Ok(false),
        (ValueModel::Number(x), ValueModel::Number(y)) => Ok(num_eq(x, y)),
        (ValueModel::String(x), ValueModel::String(y)) => Ok(x == y),
        (ValueModel::Boolean(x), ValueModel::Boolean(y)) => Ok(x == y),
        (ValueModel::Function(f), ValueModel::Function(g)) => Ok(f == g),
        (ValueModel::Native(f), ValueModel::Native(g)) => Ok(f == g),
        (ValueModel::Function(_), ValueModel::Native(_)) => Ok(false),
        (ValueModel::Native(_), ValueModel::Function(_)) => Ok(false),
        _ => Err(RuntimeError::TypeError { line }),
    }
}

/// Lexicographic order of character sequences.
pub open spec fn text_lt(a: Seq<char>, b: Seq<char>) -> bool
    decreases a.len(),
{
    if a.len() == 0 {
        b.len() > 0
    } else if b.len() == 0 {
        false
    } else if a[0] != b[0] {
        (a[0] as u32) < (b[0] as u32)
    } else {
        text_lt(a.drop_first(), b.drop_first())
    }
}

/// The order operators on two values of one kind among number, string and
/// boolean; `strict` picks `<` over `<=`, and `flip` swaps the operands.
pub open spec fn order_result(a: ValueModel, b: ValueModel, strict: bool, line: usize) -> Result<
    bool,
    RuntimeError,
> {
    match (a, b) {
        (ValueModel::Number(x), ValueModel::Number(y)) => Ok(
            if strict {
                num_lt(x, y)
            } else {
                num_lt(x, y) || num_eq(x, y)
            },
        ),
        (ValueModel::String(x), ValueModel::String(y)) => Ok(
            if strict {
                text_lt(x, y)
            } else {
                !text_lt(y, x)
            },
        ),
        (ValueModel::Boolean(x), ValueModel::Boolean(y)) => Ok(
            if strict {
                !x && y
            } else {
                !x || y
            },
        ),
        _ => Err(RuntimeError::TypeError { line }),
    }
}

pub open spec fn boolean_of(r: Result<bool, RuntimeError>) -> Result<ValueModel, RuntimeError> {
    match r {
        Ok(b) => Ok(ValueModel::Boolean(b)),
        Err(e) => Err(e),
    }
}

/// The value of `a op b`, both operands evaluated.
pub open spec fn binary_result(op: TokenType, a: ValueModel, b: ValueModel, line: usize) -> Result<
    ValueModel,
    RuntimeError,
> {
    let type_error = Err(RuntimeError::TypeError { line });
    if op == TokenType::Plus {
        match (a, b) {
            (ValueModel::Number(x), ValueModel::Number(y)) => Ok(ValueModel::Number(float_sum(x, y))),
            (ValueModel::String(x), ValueModel::String(y)) => Ok(ValueModel::String(x + y)),
            (ValueModel::String(x), ValueModel::Number(y)) => Ok(
                ValueModel::String(x + number_text(y)),
            ),
            _ => type_error,
        }
    } else if op == TokenType::Minus || op == TokenType::Star || op == TokenType::Slash {
        match (a, b) {
            (ValueModel::Number(x), ValueModel::Number(y)) => Ok(
                ValueModel::Number(
                    if op == TokenType::Minus {
                        float_difference(x, y)
                    } else if op == TokenType::Star {
                        float_product(x, y)
                    } else {
                        float_quotient(x, y)
                    },
                ),
            ),
            _ => type_error,
        }
    } else if op == TokenType::EqualEqual {
        boolean_of(equal_result(a, b, line))
    } else if op == TokenType::BangEqual {
        match equal_result(a, b, line) {
            Ok(e) => Ok(ValueModel::Boolean(!e)),
            Err(e) => Err(e),
        }
    } else if op == TokenType::Less {
        boolean_of(order_result(a, b, true, line))
    } else if op == TokenType::LessEqual {
        boolean_of(order_result(a, b, false, line))
    } else if op == TokenType::Greater {
        boolean_of(order_result(b, a, true, line))
    } else if op == TokenType::GreaterEqual {
        boolean_of(order_result(b, a, false, line))
    } else if op == TokenType::Comma {
        Ok(b)
    } else {
        type_error
    }
}

/// A deep copy of a value.
pub fn copy_value(v: &Value) -> (r: Value)
    ensures
        value_model(r) == value_model(*v),
{
    match v {
        Value::Nil => Value::Nil,
        Value::Boolean(b) => Value::Boolean(*b),
        Value::Number(n) => Value::Number(*n),
        Value::String(s) => Value::String(s.clone()),
        Value::Function(f) => Value::Function(Function { declaration: copy_fun(&f.declaration) }),
        Value::Native(n) => Value::Native(*n),
    }
}

impl Function {
    pub fn new(declaration: FunStmt) -> (r: Function)
        ensures
            fun_model(r.declaration) == fun_model(declaration),
    {
        Function { declaration }
    }

    pub fn arity(&self) -> (r: usize)
        ensures
            r == fun_model(self.declaration).params.len(),
    {
        self.declaration.parameters.len()
    }
}

impl NativeFn {
    pub fn arity(&self) -> (r: usize)
        ensures
            r == 0,
    {
        0
    }
}

fn text_less(a: &String, b: &String) -> (r: bool)
    ensures
        r == text_lt(a@, b@),
{
    let sa = a.as_str();
    let sb = b.as_str();
    let la = sa.unicode_len();
    let lb = sb.unicode_len();
    let mut i: usize = 0;
    assert(a@.subrange(0, la as int) =~= a@);
    assert(b@.subrange(0, lb as int) =~= b@);
    while i < la && i < lb
        invariant
            la == a@.len(),
            lb == b@.len(),
            sa@ == a@,
            sb@ == b@,
            i <= la,
            i <= lb,
            text_lt(a@, b@) == text_lt(a@.subrange(i as int, la as int), b@.subrange(i as int, lb as int)),
        decreases la - i,
    {
        let ca = sa.get_char(i);
        let cb = sb.get_char(i);
        proof {
            let x = a@.subrange(i as int, la as int);
            let y = b@.subrange(i as int, lb as int);
            assert(x.drop_first() =~= a@.subrange(i + 1, la as int));
            assert(y.drop_first() =~= b@.subrange(i + 1, lb as int));
        }
        if ca != cb {
            return (ca as u32) < (cb as u32);
        }
        i += 1;
    }
    i == la && i < lb
}

impl Value {
    pub fn is_truthy(&self) -> (r: bool)
        ensures
            r == truthy(value_model(*self)),
    {
        match self {
            Value::Nil => false,
            Value::Boolean(b) => *b,
            _ => true,
        }
    }

    /// The text that `print` shows for this value.
    pub fn stringify(&self) -> (r: String)
        ensures
            r@ == stringify(value_model(*self)),
    {
        match self {
            Value::Nil => String::from_str("nil"),
            Value::Boolean(b) => if *b {
                String::from_str("true")
            } else {
                String::from_str("false")
            },
            Value::Number(n) => n.render(),
            Value::String(s) => s.clone(),
            Value::Function(f) => {
                let mut r = String::from_str("<fn ");
                r.append(f.declaration.name.lexeme.as_str());
                r.append(">");
                r
            },
            Value::Native(_) => String::from_str("<native fn>"),
        }
    }

    /// Unary `-`.
    pub fn negate(&self, line: usize) -> (r: Result<Value, RuntimeError>)
        ensures
            result_model(r) == negate_result(value_model(*self), line),
    {
        match self {
            Value::Number(n) => Ok(Value::Number(n.neg())),
            _ => Err(RuntimeError::TypeError { line }),
        }
    }

    /// `==` between two values.
    pub fn equals(&self, o: &Value, line: usize) -> (r: Result<bool, RuntimeError>)
        ensures
            r == equal_result(value_model(*self), value_model(*o), line),
    {
        match (self, o) {
            (Value::Nil, Value::Nil) => Ok(true),
            (Value::Nil, _) => Ok(false),
            (_, Value::Nil) => Ok(false),
            (Value::Number(x), Value::Number(y)) => Ok(x.num_eq(y)),
            (Value::String(x), Value::String(y)) => Ok(*x == *y),
            (Value::Boolean(x), Value::Boolean(y)) => Ok(*x == *y),
            (Value::Function(f), Value::Function(g)) => Ok(same_fun(&f.declaration, &g.declaration)),
            (Value::Native(f), Value::Native(g)) => Ok(*f == *g),
            (Value::Function(_), Value::Native(_)) => Ok(false),
            (Value::Native(_), Value::Function(_)) => Ok(false),
            _ => Err(RuntimeError::TypeError { line }),
        }
    }

    /// `<` (with `strict`) or `<=` between two values.
    pub fn ordered(&self, o: &Value, strict: bool, line: usize) -> (r: Result<bool, RuntimeError>)
        ensures
            r == order_result(value_model(*self), value_model(*o), strict, line),
    {
        match (self, o) {
            (Value::Number(x), Value::Number(y)) => Ok(
                if strict {
                    x.num_lt(y)
                } else {
                    x.num_lt(y) || x.num_eq(y)
                },
            ),
            (Value::String(x), Value::String(y)) => Ok(
                if strict {
                    text_less(x, y)
                } else {
                    !text_less(y, x)
                },
            ),
            (Value::Boolean(x), Value::Boolean(y)) => Ok(
                if strict {
                    !*x && *y
                } else {
                    !*x || *y
                },
            ),
            _ => Err(RuntimeError::TypeError { line }),
        }
    }
}

fn boolean_value(r: Result<bool, RuntimeError>) -> (v: Result<Value, RuntimeError>)
    ensures
        result_model(v) == boolean_of(r),
{
    match r {
        Ok(b) => Ok(Value::Boolean(b)),
        Err(e) => Err(e),
    }
}

/// The value of `a op b` for the operator kind `op` on `line`.
pub fn binary_op(op: TokenType, a: Value, b: Value, line: usize) -> (r: Result<Value, RuntimeError>)
    ensures
        result_model(r) == binary_result(op, value_model(a), value_model(b), line),
{
    if op == TokenType::Plus {
        match (&a, &b) {
            (Value::Number(x), Value::Number(y)) => Ok(Value::Number(x.add(y))),
            (Value::String(x), Value::String(y)) => {
                let mut s = x.clone();
                s.append(y.as_str());
                Ok(Value::String(s))
            },
            (Value::String(x), Value::Number(y)) => {
                let mut s = x.clone();
                let t = y.render();
                s.append(t.as_str());
                Ok(Value::String(s))
            },
            _ => Err(RuntimeError::TypeError { line }),
        }
    } else if op == TokenType::Minus || op == TokenType::Star || op == TokenType::Slash {
        match (&a, &b) {
            (Value::Number(x), Value::Number(y)) => Ok(
                Value::Number(
                    if op == TokenType::Minus {
                        x.sub(y)
                    } else if op == TokenType::Star {
                        x.mul(y)
                    } else {
                        x.div(y)
                    },
                ),
            ),
            _ => Err(RuntimeError::TypeError { line }),
        }
    } else if op == TokenType::EqualEqual {
        boolean_value(a.equals(&b, line))
    } else if op == TokenType::BangEqual {
        match a.equals(&b, line) {
            Ok(e) => Ok(Value::Boolean(!e)),
            Err(e) => Err(e),
        }
    } else if op == TokenType::Less {
        boolean_value(a.ordered(&b, true, line))
    } else if op == TokenType::LessEqual {
        boolean_value(a.ordered(&b, false, line))
    } else if op == TokenType::Greater {
        boolean_value(b.ordered(&a, true, line))
    } else if op == TokenType::GreaterEqual {
        boolean_value(b.ordered(&a, false, line))
    } else if op == TokenType::Comma {
        Ok(b)
    } else {
        Err(RuntimeError::TypeError { line })
    }
}

} // verus!
