use crate::expr::{Expr, Tree};
use crate::token::{Object, Value};
use vstd::prelude::*;
use vstd::string::StringExecFns;

verus! {

/// The numbers of a tree's literals, left to right.
pub open spec fn numbers_of(t: Tree) -> Seq<u64>
    decreases t,
{
    match t {
        Tree::Literal(Value::Num(n)) => seq![n],
        Tree::Literal(_) => Seq::empty(),
        Tree::Grouping(e) => numbers_of(*e),
        Tree::Unary(_, e) => numbers_of(*e),
        Tree::Binary(l, _, r) => numbers_of(*l) + numbers_of(*r),
    }
}

/// The text of a literal; a number's text is the first of `texts`.
pub open spec fn literal_text(v: Value, texts: Seq<Seq<char>>) -> Seq<char> {
    match v {
        Value::Str(s) => s,
        Value::Num(_) => texts[0],
        Value::Ident(s) => s,
        Value::Bool(b) => if b {
            "true"@
        } else {
            "false"@
        },
        Value::Nil => "nil"@,
    }
}

/// A tree in prefix form, `(* (- 123) (group 45.67))`, where `texts` are the texts
/// of its numbers, left to right.
pub open spec fn printed(t: Tree, texts: Seq<Seq<char>>) -> Seq<char>
    decreases t,
{
    match t {
        Tree::Literal(v) => literal_text(v, texts),
        Tree::Grouping(e) => "(group "@ + printed(*e, texts) + ")"@,
        Tree::Unary(op, e) => "("@ + op.lexeme + " "@ + printed(*e, texts) + ")"@,
        Tree::Binary(l, op, r) => {
            let k = numbers_of(*l).len() as int;
            "("@ + op.lexeme + " "@ + printed(*l, texts.take(k)) + " "@ + printed(
                *r,
                texts.skip(k),
            ) + ")"@
        },
    }
}

pub open spec fn texts_view(texts: Seq<String>) -> Seq<Seq<char>> {
    texts.map_values(|s: String| s@)
}

/// Prints expression trees in prefix form. How a number reads is up to the
/// caller, who hands over the texts of a tree's numbers.
pub struct AstPrinter;

impl AstPrinter {
    /// The numbers of a tree's literals, left to right: what the caller renders.
    pub fn numbers(&self, expr: &Expr) -> (r: Vec<u64>)
        ensures
            r@ == numbers_of(expr@),
        decreases expr,
    {
        match expr {
            Expr::Literal { value: Object::Number(n) } => vec![*n],
            Expr::Literal { .. } => Vec::new(),
            Expr::Grouping { expr } => self.numbers(expr),
            Expr::Unary { right, .. } => self.numbers(right),
            Expr::Binary { left, right, .. } => {
                let mut r = self.numbers(left);
                let mut rest = self.numbers(right);
                r.append(&mut rest);
                r
            },
        }
    }

    /// Prints a tree; `texts` are the texts of its numbers, left to right.
    pub fn print(&self, expr: Expr, texts: &[String]) -> (r: Result<String, ()>)
        requires
            texts@.len() == numbers_of(expr@).len(),
        ensures
            r matches Ok(s) && s@ == printed(expr@, texts_view(texts@)),
    {
        let (s, next) = self.print_from(&expr, texts, 0);
        assert(texts_view(texts@).subrange(0, texts@.len() as int) =~= texts_view(texts@));
        Ok(s)
    }

    fn print_from(&self, expr: &Expr, texts: &[String], start: usize) -> (r: (String, usize))
        requires
            start + numbers_of(expr@).len() <= texts@.len(),
        ensures
            r.1 == start + numbers_of(expr@).len(),
            r.0@ == printed(expr@, texts_view(texts@).subrange(start as int, r.1 as int)),
        decreases expr,
    {
        proof {
            reveal_strlit("(");
            reveal_strlit(")");
            reveal_strlit(" ");
            reveal_strlit("(group ");
        }
        match expr {
            Expr::Literal { value } => {
                let s = match value {
                    Object::String(s) => s.clone(),
                    Object::Number(_) => texts[start].clone(),
                    Object::Identifier(s) => s.clone(),
                    Object::Bool(b) => if *b {
                        <String as StringExecFns>::from_str("true")
                    } else {
                        <String as StringExecFns>::from_str("false")
                    },
                    Object::Nil => <String as StringExecFns>::from_str("nil"),
                };
                let next = match value {
                    Object::Number(_) => start + 1,
                    _ => start,
                };
                (s, next)
            },
            Expr::Grouping { expr } => {
                let (inner, next) = self.print_from(expr, texts, start);
                let mut s = <String as StringExecFns>::from_str("(group ");
                s.append(inner.as_str());
                s.append(")");
                (s, next)
            },
            Expr::Unary { operator, right } => {
                let (inner, next) = self.print_from(right, texts, start);
                let mut s = <String as StringExecFns>::from_str("(");
                s.append(operator.loc.lexeme.as_str());
                s.append(" ");
                s.append(inner.as_str());
                s.append(")");
                (s, next)
            },
            Expr::Binary { left, operator, right } => {
                let (l, mid) = self.print_from(left, texts, start);
                let (r, next) = self.print_from(right, texts, mid);
                proof {
                    let all = texts_view(texts@).subrange(start as int, next as int);
                    let k = numbers_of(left@).len() as int;
                    assert(all.take(k) =~= texts_view(texts@).subrange(start as int, mid as int));
                    assert(all.skip(k) =~= texts_view(texts@).subrange(mid as int, next as int));
                }
                let mut s = <String as StringExecFns>::from_str("(");
                s.append(operator.loc.lexeme.as_str());
                s.append(" ");
                s.append(l.as_str());
                s.append(" ");
                s.append(r.as_str());
                s.append(")");
                (s, next)
            },
        }
    }
}

} // verus!
