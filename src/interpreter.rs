use crate::errors::diagnostics_view;
use crate::expr::{Expr, Tree};
use crate::number::{
    add_numbers, compare_numbers, difference_of, divide_numbers, multiply_numbers, negate,
    negation_of, order_of, product_of, quotient_of, subtract_numbers, sum_of, NumOrder,
};
use crate::token::{truthy, values_equal, Object, Token, TokenType, TokenView, Value};
use crate::InterpreterError;
use vstd::prelude::*;
use vstd::string::StringExecFns;

verus! {

/// The mathematical model of an `InterpreterError`.
pub enum Fault {
    NumberOperand(Value),
    NumberOperands(Value, Value),
    StringOrNumberOperands(Value, Value),
    Operator(Value, TokenView, Value),
    Scan(Seq<crate::errors::DiagnosticView>),
    Parse(Seq<crate::errors::DiagnosticView>),
}

impl View for InterpreterError {
    type V = Fault;

    open spec fn view(&self) -> Fault {
        match self {
            InterpreterError::InvalidNumberOperand(v) => Fault::NumberOperand(v@),
            InterpreterError::InvalidNumberOperands(a, b) => Fault::NumberOperands(a@, b@),
            InterpreterError::InvalidStringOrNumberOperands(a, b) => Fault::StringOrNumberOperands(
                a@,
                b@,
            ),
            InterpreterError::InvalidOperatorError(a, t, b) => Fault::Operator(a@, t@, b@),
            InterpreterError::ScanError(d) => Fault::Scan(diagnostics_view(d@)),
            InterpreterError::ParseError(d) => Fault::Parse(diagnostics_view(d@)),
        }
    }
}

pub open spec fn outcome_view(r: Result<Object, InterpreterError>) -> Result<Value, Fault> {
    match r {
        Ok(v) => Ok(v@),
        Err(e) => Err(e@),
    }
}

/// Whether an ordering satisfies a comparison operator.
pub open spec fn satisfies(kind: TokenType, o: Option<NumOrder>) -> bool {
    match kind {
        TokenType::Greater => o == Some(NumOrder::Greater),
        TokenType::GreaterEqual => o == Some(NumOrder::Greater) || o == Some(NumOrder::Equal),
        TokenType::Less => o == Some(NumOrder::Less),
        _ => o == Some(NumOrder::Less) || o == Some(NumOrder::Equal),
    }
}

/// A unary operator applied to an evaluated operand.
pub open spec fn unary_result(op: TokenView, v: Value) -> Result<Value, Fault> {
    match op.kind {
        TokenType::Minus => match v {
            Value::Num(n) => Ok(Value::Num(negation_of(n))),
            _ => Err(Fault::NumberOperand(v)),
        },
        TokenType::Bang => Ok(Value::Bool(!truthy(v))),
        _ => Err(Fault::NumberOperand(v)),
    }
}

/// A binary operator applied to two evaluated operands.
pub open spec fn binary_result(a: Value, op: TokenView, b: Value) -> Result<Value, Fault> {
    match op.kind {
        TokenType::Minus | TokenType::Slash | TokenType::Star => match (a, b) {
            (Value::Num(x), Value::Num(y)) => Ok(
                Value::Num(
                    if op.kind == TokenType::Minus {
                        difference_of(x, y)
                    } else if op.kind == TokenType::Slash {
                        quotient_of(x, y)
                    } else {
                        product_of(x, y)
                    },
                ),
            ),
            _ => Err(Fault::NumberOperands(a, b)),
        },
        TokenType::Plus => match (a, b) {
            (Value::Num(x), Value::Num(y)) => Ok(Value::Num(sum_of(x, y))),
            (Value::Str(x), Value::Str(y)) => Ok(Value::Str(x + y)),
            _ => Err(Fault::StringOrNumberOperands(a, b)),
        },
        TokenType::Greater | TokenType::GreaterEqual | TokenType::Less | TokenType::LessEqual => {
            match (a, b) {
                (Value::Num(x), Value::Num(y)) => Ok(Value::Bool(satisfies(op.kind, order_of(x, y)))),
                _ => Err(Fault::NumberOperands(a, b)),
            }
        },
        TokenType::BangEqual => Ok(Value::Bool(!values_equal(a, b))),
        TokenType::EqualEqual => Ok(Value::Bool(values_equal(a, b))),
        _ => Err(Fault::Operator(a, op, b)),
    }
}

/// The value of an expression tree, or the first error met, evaluating left to right.
pub open spec fn eval(t: Tree) -> Result<Value, Fault>
    decreases t,
{
    match t {
        Tree::Literal(v) => Ok(v),
        Tree::Grouping(e) => eval(*e),
        Tree::Unary(op, e) => match eval(*e) {
            Ok(v) => unary_result(op, v),
            Err(f) => Err(f),
        },
        Tree::Binary(l, op, r) => match eval(*l) {
            Ok(a) => match eval(*r) {
                Ok(b) => binary_result(a, op, b),
                Err(f) => Err(f),
            },
            Err(f) => Err(f),
        },
    }
}

/// The tree-walking evaluator.
pub struct Interpreter;

impl Interpreter {
    /// Evaluates an expression and hands back its value.
    pub fn interpret(&mut self, expr: &Expr) -> (r: Result<Object, InterpreterError>)
        ensures
            outcome_view(r) == eval(expr@),
    {
        self.evaluate(expr)
    }

    fn evaluate(&self, expr: &Expr) -> (r: Result<Object, InterpreterError>)
        ensures
            outcome_view(r) == eval(expr@),
        decreases expr,
    {
        match expr {
            Expr::Literal { value } => Ok(value.duplicate()),
            Expr::Grouping { expr } => self.evaluate(expr),
            Expr::Unary { operator, right } => {
                let v = self.evaluate(right)?;
                self.unary_op(operator, v)
            },
            Expr::Binary { left, operator, right } => {
                let a = self.evaluate(left)?;
                let b = self.evaluate(right)?;
                self.binary_op(a, operator, b)
            },
        }
    }

    fn unary_op(&self, operator: &Token, right: Object) -> (r: Result<Object, InterpreterError>)
        ensures
            outcome_view(r) == unary_result(operator@, right@),
    {
        match operator.kind {
            TokenType::Minus => match right {
                Object::Number(n) => Ok(Object::Number(negate(n))),
                _ => Err(InterpreterError::InvalidNumberOperand(right)),
            },
            TokenType::Bang => Ok(Object::Bool(!right.is_truthy())),
            _ => Err(InterpreterError::InvalidNumberOperand(right)),
        }
    }

    fn binary_op(&self, left: Object, operator: &Token, right: Object) -> (r: Result<
        Object,
        InterpreterError,
    >)
        ensures
            outcome_view(r) == binary_result(left@, operator@, right@),
    {
        match operator.kind {
            TokenType::Minus | TokenType::Slash | TokenType::Star => match (&left, &right) {
                (Object::Number(l), Object::Number(r)) => {
                    let n = if operator.kind == TokenType::Minus {
                        subtract_numbers(*l, *r)
                    } else if operator.kind == TokenType::Slash {
                        divide_numbers(*l, *r)
                    } else {
                        multiply_numbers(*l, *r)
                    };
                    Ok(Object::Number(n))
                },
                _ => Err(InterpreterError::InvalidNumberOperands(left, right)),
            },
            TokenType::Plus => match (&left, &right) {
                (Object::Number(l), Object::Number(r)) => Ok(Object::Number(add_numbers(*l, *r))),
                (Object::String(l), Object::String(r)) => Ok(
                    Object::String(l.clone().concat(r.as_str())),
                ),
                _ => Err(InterpreterError::InvalidStringOrNumberOperands(left, right)),
            },
            TokenType::Greater | TokenType::GreaterEqual | TokenType::Less
            | TokenType::LessEqual => match (&left, &right) {
                (Object::Number(l), Object::Number(r)) => {
                    let o = compare_numbers(*l, *r);
                    let holds = match operator.kind {
                        TokenType::Greater => o == Some(NumOrder::Greater),
                        TokenType::GreaterEqual => o == Some(NumOrder::Greater) || o == Some(
                            NumOrder::Equal,
                        ),
                        TokenType::Less => o == Some(NumOrder::Less),
                        _ => o == Some(NumOrder::Less) || o == Some(NumOrder::Equal),
                    };
                    Ok(Object::Bool(holds))
                },
                _ => Err(InterpreterError::InvalidNumberOperands(left, right)),
            },
            TokenType::BangEqual => Ok(Object::Bool(!left.equals(&right))),
            TokenType::EqualEqual => Ok(Object::Bool(left.equals(&right))),
            _ => Err(InterpreterError::InvalidOperatorError(left, operator.duplicate(), right)),
        }
    }
}

} // verus!
