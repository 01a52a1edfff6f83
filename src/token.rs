use crate::number::{compare_numbers, order_of, NumOrder};
use vstd::prelude::*;

verus! {

/// The kinds of token of the language.
#[derive(Clone, Copy, Debug, PartialEq, Eq, Structural)]
pub enum TokenType {
    LeftParen,
    RightParen,
    LeftBrace,
    RightBrace,
    Comma,
    Dot,
    Minus,
    Plus,
    Semicolon,
    Slash,
    Star,
    Bang,
    BangEqual,
    Equal,
    EqualEqual,
    Greater,
    GreaterEqual,
    Less,
    LessEqual,
    Identifier,
    String,
    Number,
    And,
    Class,
    Else,
    False,
    Fun,
    For,
    If,
    Nil,
    Or,
    Print,
    Return,
    Super,
    This,
    True,
    Var,
    While,
    Eof,
}

/// Where a token stands: its text and its 1-based line.
#[derive(Debug)]
pub struct Location {
    pub lexeme: String,
    pub line: usize,
}

/// A literal or runtime value. A number is an IEEE-754 binary64 bit pattern.
#[derive(Debug)]
pub enum Object {
    String(String),
    Number(u64),
    Identifier(String),
    Bool(bool),
    Nil,
}

/// A token: its kind, the literal it carries, and where it stands.
#[derive(Debug)]
pub struct Token {
    pub kind: TokenType,
    pub literal: Option<Object>,
    pub loc: Location,
}

/// The mathematical model of an `Object`.
pub enum Value {
    Str(Seq<char>),
    Num(u64),
    Ident(Seq<char>),
    Bool(bool),
    Nil,
}

/// The mathematical model of a `Token`.
pub struct TokenView {
    pub kind: TokenType,
    pub literal: Option<Value>,
    pub lexeme: Seq<char>,
    pub line: nat,
}

impl View for Object {
    type V = Value;

    open spec fn view(&self) -> Value {
        match self {
            Object::String(s) => Value::Str(s@),
            Object::Number(n) => Value::Num(*n),
            Object::Identifier(s) => Value::Ident(s@),
            Object::Bool(b) => Value::Bool(*b),
            Object::Nil => Value::Nil,
        }
    }
}

pub open spec fn option_view(o: Option<Object>) -> Option<Value> {
    match o {
        Some(v) => Some(v@),
        None => None,
    }
}

impl View for Token {
    type V = TokenView;

    open spec fn view(&self) -> TokenView {
        TokenView {
            kind: self.kind,
            literal: option_view(self.literal),
            lexeme: self.loc.lexeme@,
            line: self.loc.line as nat,
        }
    }
}

/// `nil` and `false` are falsy; every other value is truthy.
pub open spec fn truthy(v: Value) -> bool {
    match v {
        Value::Bool(b) => b,
        Value::Nil => false,
        _ => true,
    }
}

/// Structural equality: values of different kinds are never equal, and numbers
/// compare as IEEE-754 numbers do.
pub open spec fn values_equal(a: Value, b: Value) -> bool {
    match (a, b) {
        (Value::Str(x), Value::Str(y)) => x == y,
        (Value::Num(x), Value::Num(y)) => order_of(x, y) == Some(NumOrder::Equal),
        (Value::Ident(x), Value::Ident(y)) => x == y,
        (Value::Bool(x), Value::Bool(y)) => x == y,
        (Value::Nil, Value::Nil) => true,
        _ => false,
    }
}

impl Object {
    pub fn is_truthy(&self) -> (r: bool)
        ensures
            r == truthy(self@),
    {
        match self {
            Object::Bool(b) => *b,
            Object::Nil => false,
            _ => true,
        }
    }

    /// A copy of this value.
    pub fn duplicate(&self) -> (r: Object)
        ensures
            r@ == self@,
    {
        match self {
            Object::String(s) => Object::String(s.clone()),
            Object::Number(n) => Object::Number(*n),
            Object::Identifier(s) => Object::Identifier(s.clone()),
            Object::Bool(b) => Object::Bool(*b),
            Object::Nil => Object::Nil,
        }
    }

    /// Whether two values are equal, as `==` of the language decides.
    pub fn equals(&self, other: &Object) -> (r: bool)
        ensures
            r == values_equal(self@, other@),
    {
        match (self, other) {
            (Object::String(x), Object::String(y)) => x.eq(y),
            (Object::Number(x), Object::Number(y)) => match compare_numbers(*x, *y) {
                Some(NumOrder::Equal) => true,
                _ => false,
            },
            (Object::Identifier(x), Object::Identifier(y)) => x.eq(y),
            (Object::Bool(x), Object::Bool(y)) => *x == *y,
            (Object::Nil, Object::Nil) => true,
            _ => false,
        }
    }
}

impl Token {
    /// A copy of this token.
    pub fn duplicate(&self) -> (r: Token)
        ensures
            r@ == self@,
    {
        let literal = match &self.literal {
            Some(v) => Some(v.duplicate()),
            None => None,
        };
        Token {
            kind: self.kind,
            literal,
            loc: Location { lexeme: self.loc.lexeme.clone(), line: self.loc.line },
        }
    }
}

} // verus!
