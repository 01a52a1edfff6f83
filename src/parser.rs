use crate::errors::{diagnostics_view, token_loc, Diagnostic, DiagnosticView, Errors};
use crate::expr::{Expr, Tree};
use crate::scanner::tokens_view;
use crate::token::{Object, Token, TokenType, TokenView, Value};
use vstd::prelude::*;

verus! {

/// How parsing from a position ends: a tree and the position after it, or a
/// failure at a token with a message.
pub enum Parsed {
    Done(Tree, int),
    Failed(int, Seq<char>),
}

pub open spec fn expect_expression() -> Seq<char> {
    "Expect expression."@
}

pub open spec fn expect_paren() -> Seq<char> {
    "Expect ')' after expression."@
}

/// A token sequence the parser can walk: it ends with the end-of-input token, and
/// every number and string token carries its literal.
pub open spec fn well_formed_tokens(t: Seq<TokenView>) -> bool {
    &&& t.len() > 0
    &&& t.last().kind == TokenType::Eof
    &&& forall|i: int|
        0 <= i < t.len() && (#[trigger] t[i].kind == TokenType::Number || t[i].kind
            == TokenType::String) ==> t[i].literal is Some
}

/// The operators of a binary precedence level: 4 equality, 3 comparison, 2 term,
/// 1 factor.
pub open spec fn level_ops(level: nat, k: TokenType) -> bool {
    if level == 4 {
        k == TokenType::BangEqual || k == TokenType::EqualEqual
    } else if level == 3 {
        k == TokenType::Greater || k == TokenType::GreaterEqual || k == TokenType::Less || k
            == TokenType::LessEqual
    } else if level == 2 {
        k == TokenType::Minus || k == TokenType::Plus
    } else if level == 1 {
        k == TokenType::Slash || k == TokenType::Star
    } else {
        false
    }
}

/// A binary level: an operand of the next level, then any number of
/// `operator operand` pairs, folded to the left.
pub open spec fn parse_level(t: Seq<TokenView>, pos: int, level: nat) -> Parsed
    decreases t.len() - pos, 2 * level + 2,
{
    if pos < 0 || pos >= t.len() {
        Parsed::Failed(pos, expect_expression())
    } else if level == 0 {
        parse_unary(t, pos)
    } else {
        match parse_level(t, pos, (level - 1) as nat) {
            Parsed::Done(left, p) => if pos <= p <= t.len() {
                fold_level(t, left, p, level)
            } else {
                Parsed::Done(left, p)
            },
            Parsed::Failed(i, m) => Parsed::Failed(i, m),
        }
    }
}

/// The `operator operand` pairs of a binary level, after `left`.
pub open spec fn fold_level(t: Seq<TokenView>, left: Tree, pos: int, level: nat) -> Parsed
    decreases t.len() - pos, 2 * level + 1,
{
    if pos < 0 || pos >= t.len() || level == 0 {
        Parsed::Done(left, pos)
    } else if level_ops(level, t[pos].kind) {
        match parse_level(t, pos + 1, (level - 1) as nat) {
            Parsed::Done(right, p) => {
                let tree = Tree::Binary(Box::new(left), t[pos], Box::new(right));
                if pos < p <= t.len() {
                    fold_level(t, tree, p, level)
                } else {
                    Parsed::Done(tree, p)
                }
            },
            Parsed::Failed(i, m) => Parsed::Failed(i, m),
        }
    } else {
        Parsed::Done(left, pos)
    }
}

/// `!` or `-` before a unary expression, or a primary expression.
pub open spec fn parse_unary(t: Seq<TokenView>, pos: int) -> Parsed
    decreases t.len() - pos, 1int,
{
    if pos < 0 || pos >= t.len() {
        Parsed::Failed(pos, expect_expression())
    } else if t[pos].kind == TokenType::Bang || t[pos].kind == TokenType::Minus {
        match parse_unary(t, pos + 1) {
            Parsed::Done(e, p) => Parsed::Done(Tree::Unary(t[pos], Box::new(e)), p),
            Parsed::Failed(i, m) => Parsed::Failed(i, m),
        }
    } else {
        parse_primary(t, pos)
    }
}

/// A literal, or a parenthesised expression.
pub open spec fn parse_primary(t: Seq<TokenView>, pos: int) -> Parsed
    decreases t.len() - pos, 0int,
{
    if pos < 0 || pos >= t.len() {
        Parsed::Failed(pos, expect_expression())
    } else {
        let k = t[pos].kind;
        if k == TokenType::False {
            Parsed::Done(Tree::Literal(Value::Bool(false)), pos + 1)
        } else if k == TokenType::True {
            Parsed::Done(Tree::Literal(Value::Bool(true)), pos + 1)
        } else if k == TokenType::Nil {
            Parsed::Done(Tree::Literal(Value::Nil), pos + 1)
        } else if k == TokenType::Number || k == TokenType::String {
            Parsed::Done(Tree::Literal(t[pos].literal->0), pos + 1)
        } else if k == TokenType::LeftParen {
            match parse_level(t, pos + 1, 4) {
                Parsed::Done(e, p) => if 0 <= p < t.len() && t[p].kind == TokenType::RightParen {
                    Parsed::Done(Tree::Grouping(Box::new(e)), p + 1)
                } else {
                    Parsed::Failed(p, expect_paren())
                },
                Parsed::Failed(i, m) => Parsed::Failed(i, m),
            }
        } else {
            Parsed::Failed(pos, expect_expression())
        }
    }
}

/// A whole expression from `pos`.
pub open spec fn parse_expression(t: Seq<TokenView>, pos: int) -> Parsed {
    parse_level(t, pos, 4)
}

/// The diagnostic for a failure at token `i` with message `m`.
pub open spec fn failure_diagnostic(t: Seq<TokenView>, i: int, m: Seq<char>) -> DiagnosticView {
    DiagnosticView { line: t[i].line, loc: token_loc(t[i].kind, t[i].lexeme), message: m }
}

/// The recursive-descent parser: tokens and a cursor over them. The first syntax
/// error ends the parse; there is no recovery to a later statement boundary.
pub struct Parser {
    tokens: Vec<Token>,
    current: usize,
    errors: Errors,
}

impl Parser {
    pub closed spec fn tokens(&self) -> Seq<TokenView> {
        tokens_view(self.tokens@)
    }

    pub closed spec fn position(&self) -> int {
        self.current as int
    }

    pub closed spec fn had_error(&self) -> bool {
        self.errors.had_error
    }

    pub closed spec fn reported(&self) -> Seq<DiagnosticView> {
        self.errors.log()
    }

    pub closed spec fn wf(&self) -> bool {
        &&& well_formed_tokens(self.tokens())
        &&& self.current < self.tokens@.len() <= usize::MAX
    }

    /// What a parsing step from `old` to `new` that handed back `r` did, given
    /// what the grammar says of it.
    pub closed spec fn outcome(old: &Parser, new: &Parser, r: Option<Expr>, res: Parsed) -> bool {
        &&& new.wf()
        &&& new.tokens@ == old.tokens@
        &&& match res {
            Parsed::Done(e, p) => {
                &&& r is Some
                &&& r->0@ == e
                &&& new.current == p
                &&& old.current < p
                &&& new.errors.had_error == old.errors.had_error
                &&& new.errors.log() == old.errors.log()
            },
            Parsed::Failed(i, m) => {
                &&& r is None
                &&& 0 <= i < old.tokens@.len()
                &&& new.errors.had_error
                &&& new.errors.log() == old.errors.log().push(
                    failure_diagnostic(old.tokens(), i, m),
                )
            },
        }
    }

    pub fn new(tokens: &[Token]) -> (r: Parser)
        requires
            well_formed_tokens(tokens_view(tokens@)),
        ensures
            r.wf(),
            r.tokens() == tokens_view(tokens@),
            r.position() == 0,
            !r.had_error(),
            r.reported() == Seq::<DiagnosticView>::empty(),
    {
        let mut copied: Vec<Token> = Vec::new();
        let mut i: usize = 0;
        while i < tokens.len()
            invariant
                i <= tokens@.len(),
                copied@.len() == i,
                forall|j: int| 0 <= j < i ==> (#[trigger] copied@[j])@ == tokens@[j]@,
            decreases tokens@.len() - i,
        {
            copied.push(tokens[i].duplicate());
            i += 1;
        }
        assert(tokens_view(copied@) =~= tokens_view(tokens@));
        Parser { tokens: copied, current: 0, errors: Errors::new() }
    }

    /// The diagnostics reported so far, taken out of the parser.
    pub fn into_diagnostics(self) -> (r: Vec<Diagnostic>)
        ensures
            diagnostics_view(r@) == self.reported(),
    {
        self.errors.reported
    }

    /// The diagnostics reported so far.
    pub fn errors(&self) -> (r: &Errors)
        ensures
            r.log() == self.reported(),
            r.had_error == self.had_error(),
    {
        &self.errors
    }

    /// Parses one expression from the cursor. Hands back a tree only when no
    /// diagnostic has been reported.
    pub fn parse(&mut self) -> (r: Option<Expr>)
        requires
            old(self).wf(),
        ensures
            final(self).wf(),
            final(self).tokens() == old(self).tokens(),
            match parse_expression(old(self).tokens(), old(self).position()) {
                Parsed::Done(e, p) => {
                    &&& final(self).position() == p
                    &&& final(self).had_error() == old(self).had_error()
                    &&& final(self).reported() == old(self).reported()
                    &&& (r is Some <==> !old(self).had_error())
                    &&& r is Some ==> r->0@ == e
                },
                Parsed::Failed(i, m) => {
                    &&& r is None
                    &&& final(self).had_error()
                    &&& final(self).reported() == old(self).reported().push(
                        failure_diagnostic(old(self).tokens(), i, m),
                    )
                },
            },
    {
        let res = self.expression();
        if self.errors.had_error {
            None
        } else {
            res
        }
    }

    fn expression(&mut self) -> (r: Option<Expr>)
        requires
            old(self).wf(),
        ensures
            Self::outcome(old(self), final(self), r, parse_level(old(self).tokens(), old(self).current as int, 4)),
        decreases self.tokens@.len() - self.current, 11int,
    {
        self.binary(4)
    }

    /// One binary precedence level (4 equality, 3 comparison, 2 term, 1 factor),
    /// folded to the left.
    fn binary(&mut self, level: u8) -> (r: Option<Expr>)
        requires
            old(self).wf(),
            1 <= level <= 4,
        ensures
            Self::outcome(
                old(self),
                final(self),
                r,
                parse_level(old(self).tokens(), old(self).current as int, level as nat),
            ),
        decreases self.tokens@.len() - self.current, 2 * level + 2,
    {
        let ghost t = self.tokens();
        let ghost start = self.current as int;
        let ghost log0 = self.errors.log();
        let ghost err0 = self.errors.had_error;
        proof {
            if level == 1 {
                assert(parse_level(t, start, 0) == parse_unary(t, start));
            }
        }
        let sub = if level == 1 {
            self.unary()
        } else {
            self.binary(level - 1)
        };
        let mut left = match sub {
            Some(e) => e,
            None => return None,
        };
        while self.level_matches(level)
            invariant
                self.wf(),
                self.tokens() == t,
                self.tokens@ == old(self).tokens@,
                start == old(self).current,
                t == old(self).tokens(),
                log0 == old(self).errors.log(),
                err0 == old(self).errors.had_error,
                start < self.current,
                1 <= level <= 4,
                self.errors.log() == log0,
                self.errors.had_error == err0,
                parse_level(t, start, level as nat) == fold_level(
                    t,
                    left@,
                    self.current as int,
                    level as nat,
                ),
            decreases self.tokens@.len() - self.current,
        {
            let ghost cur = self.current as int;
            let operator = self.tokens[self.current].duplicate();
            self.advance();
            proof {
                if level == 1 {
                    assert(parse_level(t, cur + 1, 0) == parse_unary(t, cur + 1));
                }
                assert(operator@ == t[cur]);
            }
            let sub = if level == 1 {
                self.unary()
            } else {
                self.binary(level - 1)
            };
            let right = match sub {
                Some(e) => e,
                None => return None,
            };
            let ghost old_left = left@;
            left = Expr::Binary { left: Box::new(left), operator, right: Box::new(right) };
            assert(left@ == Tree::Binary(Box::new(old_left), t[cur], Box::new(right@)));
        }
        Some(left)
    }

    fn unary(&mut self) -> (r: Option<Expr>)
        requires
            old(self).wf(),
        ensures
            Self::outcome(old(self), final(self), r, parse_unary(old(self).tokens(), old(self).current as int)),
        decreases self.tokens@.len() - self.current, 1int,
    {
        let k = self.peek_kind();
        if k == TokenType::Bang || k == TokenType::Minus {
            let operator = self.tokens[self.current].duplicate();
            self.advance();
            match self.unary() {
                Some(e) => Some(Expr::Unary { operator, right: Box::new(e) }),
                None => None,
            }
        } else {
            self.primary()
        }
    }

    fn primary(&mut self) -> (r: Option<Expr>)
        requires
            old(self).wf(),
        ensures
            Self::outcome(old(self), final(self), r, parse_primary(old(self).tokens(), old(self).current as int)),
        decreases self.tokens@.len() - self.current, 0int,
    {
        let k = self.peek_kind();
        if k == TokenType::False {
            self.advance();
            Some(Expr::Literal { value: Object::Bool(false) })
        } else if k == TokenType::True {
            self.advance();
            Some(Expr::Literal { value: Object::Bool(true) })
        } else if k == TokenType::Nil {
            self.advance();
            Some(Expr::Literal { value: Object::Nil })
        } else if k == TokenType::Number || k == TokenType::String {
            let value = match &self.tokens[self.current].literal {
                Some(v) => v.duplicate(),
                None => {
                    proof {
                        assert(self.tokens()[self.current as int].kind == k);
                    }
                    Object::Nil
                },
            };
            self.advance();
            Some(Expr::Literal { value })
        } else if k == TokenType::LeftParen {
            self.advance();
            let inner = match self.expression() {
                Some(e) => e,
                None => return None,
            };
            if self.consume(TokenType::RightParen, "Expect ')' after expression.") {
                Some(Expr::Grouping { expr: Box::new(inner) })
            } else {
                None
            }
        } else {
            self.errors.error_token(&self.tokens[self.current], "Expect expression.");
            None
        }
    }

    /// Consumes a token of the given kind, or reports `message` at the current token.
    fn consume(&mut self, kind: TokenType, message: &str) -> (r: bool)
        requires
            old(self).wf(),
        ensures
            final(self).wf(),
            final(self).tokens@ == old(self).tokens@,
            r == (old(self).tokens()[old(self).current as int].kind == kind && kind != TokenType::Eof),
            r ==> final(self).current == old(self).current + 1 && final(self).errors.log() == old(self).errors.log()
                && final(self).errors.had_error == old(self).errors.had_error,
            !r ==> final(self).errors.had_error && final(self).errors.log() == old(self).errors.log().push(
                failure_diagnostic(old(self).tokens(), old(self).current as int, message@),
            ),
    {
        if self.check(kind) {
            self.advance();
            return true;
        }
        self.errors.error_token(&self.tokens[self.current], message);
        false
    }

    fn level_matches(&self, level: u8) -> (r: bool)
        requires
            self.wf(),
        ensures
            r == level_ops(level as nat, self.tokens()[self.current as int].kind),
    {
        let k = self.peek_kind();
        match level {
            4 => k == TokenType::BangEqual || k == TokenType::EqualEqual,
            3 => k == TokenType::Greater || k == TokenType::GreaterEqual || k == TokenType::Less
                || k == TokenType::LessEqual,
            2 => k == TokenType::Minus || k == TokenType::Plus,
            1 => k == TokenType::Slash || k == TokenType::Star,
            _ => false,
        }
    }

    fn check(&self, kind: TokenType) -> (r: bool)
        requires
            self.wf(),
        ensures
            r == (self.tokens()[self.current as int].kind == kind && kind != TokenType::Eof),
    {
        if self.is_at_end() {
            return false;
        }
        self.peek_kind() == kind
    }

    /// Moves past the current token, unless it is the end of input.
    fn advance(&mut self)
        requires
            old(self).wf(),
        ensures
            final(self).wf(),
            final(self).tokens@ == old(self).tokens@,
            final(self).errors == old(self).errors,
            final(self).current == if old(self).tokens()[old(self).current as int].kind
                == TokenType::Eof {
                old(self).current
            } else {
                (old(self).current + 1) as usize
            },
    {
        if !self.is_at_end() {
            proof {
                let t = self.tokens();
                assert(t.len() == self.tokens@.len());
                assert(t.last().kind == TokenType::Eof);
            }
            self.current += 1;
        }
    }

    fn is_at_end(&self) -> (r: bool)
        requires
            self.wf(),
        ensures
            r == (self.tokens()[self.current as int].kind == TokenType::Eof),
    {
        self.peek_kind() == TokenType::Eof
    }

    fn peek_kind(&self) -> (r: TokenType)
        requires
            self.wf(),
        ensures
            r == self.tokens()[self.current as int].kind,
    {
        self.tokens[self.current].kind
    }
}

} // verus!
