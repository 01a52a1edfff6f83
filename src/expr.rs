use crate::token::{Object, Token, TokenView, Value};
use vstd::prelude::*;

verus! {

/// An expression tree. Each node owns its children.
#[derive(Debug)]
pub enum Expr {
    Binary { left: Box<Expr>, operator: Token, right: Box<Expr> },
    Grouping { expr: Box<Expr> },
    Literal { value: Object },
    Unary { operator: Token, right: Box<Expr> },
}

/// The mathematical model of an `Expr`.
pub enum Tree {
    Binary(Box<Tree>, TokenView, Box<Tree>),
    Grouping(Box<Tree>),
    Literal(Value),
    Unary(TokenView, Box<Tree>),
}

pub open spec fn tree_of(e: &Expr) -> Tree
    decreases e,
{
    match e {
        Expr::Binary { left, operator, right } => Tree::Binary(
            Box::new(tree_of(left)),
            operator@,
            Box::new(tree_of(right)),
        ),
        Expr::Grouping { expr } => Tree::Grouping(Box::new(tree_of(expr))),
        Expr::Literal { value } => Tree::Literal(value@),
        Expr::Unary { operator, right } => Tree::Unary(operator@, Box::new(tree_of(right))),
    }
}

impl View for Expr {
    type V = Tree;

    open spec fn view(&self) -> Tree {
        tree_of(self)
    }
}

} // verus!
