use crate::expr::Tree;
use crate::interpreter::{eval, Fault};
use crate::number::{is_numeral, negation_of, product_of, numeral_split, number_of, order_of, NumOrder, SIGN_BIT};
use crate::parser::{fold_level, parse_expression, parse_level, parse_primary, parse_unary, Parsed};
use crate::scanner::{
    eof_token, lemma_run_end_exact, lex_step, number_end, scan, scan_from, CharRun,
};
use crate::token::{TokenType, TokenView, Value};
use crate::printer::{numbers_of, printed};
use crate::run_result;
use vstd::prelude::*;

verus! {

pub open spec fn literal(v: Value) -> Tree {
    Tree::Literal(v)
}

pub open spec fn same_kind(a: Value, b: Value) -> bool {
    match (a, b) {
        (Value::Str(_), Value::Str(_)) => true,
        (Value::Num(_), Value::Num(_)) => true,
        (Value::Ident(_), Value::Ident(_)) => true,
        (Value::Bool(_), Value::Bool(_)) => true,
        (Value::Nil, Value::Nil) => true,
        _ => false,
    }
}

/// Wrapping an expression in two pairs of parentheses does not change its value.
pub proof fn lemma_grouping_transparent(e: Tree)
    ensures
        eval(Tree::Grouping(Box::new(Tree::Grouping(Box::new(e))))) == eval(e),
{
    reveal_with_fuel(eval, 3);
}

/// String concatenation gives the same string however it is grouped.
pub proof fn lemma_concat_associative(
    a: Seq<char>,
    b: Seq<char>,
    c: Seq<char>,
    p1: TokenView,
    p2: TokenView,
)
    requires
        p1.kind == TokenType::Plus,
        p2.kind == TokenType::Plus,
    ensures
        eval(
            Tree::Binary(
                Box::new(literal(Value::Str(a))),
                p1,
                Box::new(
                    Tree::Binary(
                        Box::new(literal(Value::Str(b))),
                        p2,
                        Box::new(literal(Value::Str(c))),
                    ),
                ),
            ),
        ) == eval(
            Tree::Binary(
                Box::new(
                    Tree::Binary(
                        Box::new(literal(Value::Str(a))),
                        p1,
                        Box::new(literal(Value::Str(b))),
                    ),
                ),
                p2,
                Box::new(literal(Value::Str(c))),
            ),
        ),
        eval(
            Tree::Binary(
                Box::new(literal(Value::Str(a))),
                p1,
                Box::new(
                    Tree::Binary(
                        Box::new(literal(Value::Str(b))),
                        p2,
                        Box::new(literal(Value::Str(c))),
                    ),
                ),
            ),
        ) == Ok::<Value, Fault>(Value::Str(a + b + c)),
{
    reveal_with_fuel(eval, 3);
    assert(a + (b + c) =~= a + b + c);
}

/// Negating a number twice gives the number back.
pub proof fn lemma_negation_involution(n: u64, m1: TokenView, m2: TokenView)
    requires
        m1.kind == TokenType::Minus,
        m2.kind == TokenType::Minus,
    ensures
        eval(
            Tree::Unary(m1, Box::new(Tree::Unary(m2, Box::new(literal(Value::Num(n)))))),
        ) == Ok::<Value, Fault>(Value::Num(n)),
{
    reveal_with_fuel(eval, 3);
    assert((n ^ SIGN_BIT) ^ SIGN_BIT == n) by (bit_vector);
}

/// `+` on a number and a string is an error, not a coercion.
pub proof fn lemma_no_mixed_plus(n: u64, s: Seq<char>, op: TokenView)
    requires
        op.kind == TokenType::Plus,
    ensures
        eval(
            Tree::Binary(Box::new(literal(Value::Num(n))), op, Box::new(literal(Value::Str(s)))),
        ) == Err::<Value, Fault>(Fault::StringOrNumberOperands(Value::Num(n), Value::Str(s))),
        eval(
            Tree::Binary(Box::new(literal(Value::Str(s))), op, Box::new(literal(Value::Num(n)))),
        ) == Err::<Value, Fault>(Fault::StringOrNumberOperands(Value::Str(s), Value::Num(n))),
{
    reveal_with_fuel(eval, 2);
}

/// Values of different kinds are never equal, and comparing them is no error.
pub proof fn lemma_cross_kind_unequal(a: Value, b: Value, eq: TokenView, ne: TokenView)
    requires
        !same_kind(a, b),
        eq.kind == TokenType::EqualEqual,
        ne.kind == TokenType::BangEqual,
    ensures
        eval(Tree::Binary(Box::new(literal(a)), eq, Box::new(literal(b)))) == Ok::<
            Value,
            Fault,
        >(Value::Bool(false)),
        eval(Tree::Binary(Box::new(literal(a)), ne, Box::new(literal(b)))) == Ok::<
            Value,
            Fault,
        >(Value::Bool(true)),
{
    reveal_with_fuel(eval, 2);
}

/// `a < b == true` groups as `(a < b) == true`, and its value is whether `a` is
/// less than `b`.
pub proof fn lemma_comparison_chain(t: Seq<TokenView>, a: u64, b: u64)
    requires
        t.len() == 6,
        t[0].kind == TokenType::Number,
        t[0].literal == Some(Value::Num(a)),
        t[1].kind == TokenType::Less,
        t[2].kind == TokenType::Number,
        t[2].literal == Some(Value::Num(b)),
        t[3].kind == TokenType::EqualEqual,
        t[4].kind == TokenType::True,
        t[5].kind == TokenType::Eof,
    ensures
        parse_expression(t, 0) == Parsed::Done(
            Tree::Binary(
                Box::new(
                    Tree::Binary(
                        Box::new(literal(Value::Num(a))),
                        t[1],
                        Box::new(literal(Value::Num(b))),
                    ),
                ),
                t[3],
                Box::new(literal(Value::Bool(true))),
            ),
            5,
        ),
        eval(
            Tree::Binary(
                Box::new(
                    Tree::Binary(
                        Box::new(literal(Value::Num(a))),
                        t[1],
                        Box::new(literal(Value::Num(b))),
                    ),
                ),
                t[3],
                Box::new(literal(Value::Bool(true))),
            ),
        ) == Ok::<Value, Fault>(Value::Bool(order_of(a, b) == Some(NumOrder::Less))),
{
    let la = literal(Value::Num(a));
    let lb = literal(Value::Num(b));
    let lt = literal(Value::Bool(true));
    let b1 = Tree::Binary(Box::new(la), t[1], Box::new(lb));
    let b2 = Tree::Binary(Box::new(b1), t[3], Box::new(lt));
    // the left operand of `<`
    assert(parse_primary(t, 0) == Parsed::Done(la, 1));
    assert(parse_unary(t, 0) == Parsed::Done(la, 1));
    assert(parse_level(t, 0, 0) == Parsed::Done(la, 1));
    assert(fold_level(t, la, 1, 1) == Parsed::Done(la, 1));
    assert(parse_level(t, 0, 1) == Parsed::Done(la, 1));
    assert(fold_level(t, la, 1, 2) == Parsed::Done(la, 1));
    assert(parse_level(t, 0, 2) == Parsed::Done(la, 1));
    // the right operand of `<`
    assert(parse_primary(t, 2) == Parsed::Done(lb, 3));
    assert(parse_unary(t, 2) == Parsed::Done(lb, 3));
    assert(parse_level(t, 2, 0) == Parsed::Done(lb, 3));
    assert(fold_level(t, lb, 3, 1) == Parsed::Done(lb, 3));
    assert(parse_level(t, 2, 1) == Parsed::Done(lb, 3));
    assert(fold_level(t, lb, 3, 2) == Parsed::Done(lb, 3));
    assert(parse_level(t, 2, 2) == Parsed::Done(lb, 3));
    assert(fold_level(t, b1, 3, 3) == Parsed::Done(b1, 3));
    assert(fold_level(t, la, 1, 3) == Parsed::Done(b1, 3));
    assert(parse_level(t, 0, 3) == Parsed::Done(b1, 3));
    // the right operand of `==`
    assert(parse_primary(t, 4) == Parsed::Done(lt, 5));
    assert(parse_unary(t, 4) == Parsed::Done(lt, 5));
    assert(parse_level(t, 4, 0) == Parsed::Done(lt, 5));
    assert(fold_level(t, lt, 5, 1) == Parsed::Done(lt, 5));
    assert(parse_level(t, 4, 1) == Parsed::Done(lt, 5));
    assert(fold_level(t, lt, 5, 2) == Parsed::Done(lt, 5));
    assert(parse_level(t, 4, 2) == Parsed::Done(lt, 5));
    assert(fold_level(t, lt, 5, 3) == Parsed::Done(lt, 5));
    assert(parse_level(t, 4, 3) == Parsed::Done(lt, 5));
    assert(fold_level(t, b2, 5, 4) == Parsed::Done(b2, 5));
    assert(fold_level(t, b1, 3, 4) == Parsed::Done(b2, 5));
    assert(parse_level(t, 0, 4) == Parsed::Done(b2, 5));
    reveal_with_fuel(eval, 3);
}

/// `- a * ( b )` groups as `(-a) * (b)`, and its value is the product of the
/// negated `a` and `b`.
pub proof fn lemma_negated_product(t: Seq<TokenView>, a: u64, b: u64)
    requires
        t.len() == 7,
        t[0].kind == TokenType::Minus,
        t[1].kind == TokenType::Number,
        t[1].literal == Some(Value::Num(a)),
        t[2].kind == TokenType::Star,
        t[3].kind == TokenType::LeftParen,
        t[4].kind == TokenType::Number,
        t[4].literal == Some(Value::Num(b)),
        t[5].kind == TokenType::RightParen,
        t[6].kind == TokenType::Eof,
    ensures
        parse_expression(t, 0) == Parsed::Done(
            Tree::Binary(
                Box::new(Tree::Unary(t[0], Box::new(literal(Value::Num(a))))),
                t[2],
                Box::new(Tree::Grouping(Box::new(literal(Value::Num(b))))),
            ),
            6,
        ),
        eval(
            Tree::Binary(
                Box::new(Tree::Unary(t[0], Box::new(literal(Value::Num(a))))),
                t[2],
                Box::new(Tree::Grouping(Box::new(literal(Value::Num(b))))),
            ),
        ) == Ok::<Value, Fault>(Value::Num(product_of(negation_of(a), b))),
{
    let la = literal(Value::Num(a));
    let lb = literal(Value::Num(b));
    let neg = Tree::Unary(t[0], Box::new(la));
    let group = Tree::Grouping(Box::new(lb));
    let prod = Tree::Binary(Box::new(neg), t[2], Box::new(group));
    // the inner expression `b`
    assert(parse_primary(t, 4) == Parsed::Done(lb, 5));
    assert(parse_unary(t, 4) == Parsed::Done(lb, 5));
    assert(parse_level(t, 4, 0) == Parsed::Done(lb, 5));
    assert(fold_level(t, lb, 5, 1) == Parsed::Done(lb, 5));
    assert(parse_level(t, 4, 1) == Parsed::Done(lb, 5));
    assert(fold_level(t, lb, 5, 2) == Parsed::Done(lb, 5));
    assert(parse_level(t, 4, 2) == Parsed::Done(lb, 5));
    assert(fold_level(t, lb, 5, 3) == Parsed::Done(lb, 5));
    assert(parse_level(t, 4, 3) == Parsed::Done(lb, 5));
    assert(fold_level(t, lb, 5, 4) == Parsed::Done(lb, 5));
    assert(parse_level(t, 4, 4) == Parsed::Done(lb, 5));
    // `( b )` and `- a`
    assert(parse_primary(t, 3) == Parsed::Done(group, 6));
    assert(parse_unary(t, 3) == Parsed::Done(group, 6));
    assert(parse_level(t, 3, 0) == Parsed::Done(group, 6));
    assert(parse_primary(t, 1) == Parsed::Done(la, 2));
    assert(parse_unary(t, 1) == Parsed::Done(la, 2));
    assert(parse_unary(t, 0) == Parsed::Done(neg, 2));
    assert(parse_level(t, 0, 0) == Parsed::Done(neg, 2));
    // the product, then the empty tails of the lower levels
    assert(fold_level(t, prod, 6, 1) == Parsed::Done(prod, 6));
    assert(fold_level(t, neg, 2, 1) == Parsed::Done(prod, 6));
    assert(parse_level(t, 0, 1) == Parsed::Done(prod, 6));
    assert(fold_level(t, prod, 6, 2) == Parsed::Done(prod, 6));
    assert(parse_level(t, 0, 2) == Parsed::Done(prod, 6));
    assert(fold_level(t, prod, 6, 3) == Parsed::Done(prod, 6));
    assert(parse_level(t, 0, 3) == Parsed::Done(prod, 6));
    assert(fold_level(t, prod, 6, 4) == Parsed::Done(prod, 6));
    assert(parse_level(t, 0, 4) == Parsed::Done(prod, 6));
    reveal_with_fuel(eval, 3);
}

/// Scanning a decimal numeral yields one number token, carrying the number the
/// numeral denotes, then the end of input, both on line 1, with no diagnostic.
pub proof fn lemma_numeral_scans(n: Seq<char>)
    requires
        is_numeral(n),
    ensures
        !scan(n).fatal,
        scan(n).diagnostics == Seq::<crate::errors::DiagnosticView>::empty(),
        scan(n).tokens == seq![
            TokenView {
                kind: TokenType::Number,
                literal: Some(Value::Num(number_of(n))),
                lexeme: n,
                line: 1,
            },
            eof_token(1),
        ],
{
    let d = choose|d: int| numeral_split(n, d);
    lemma_run_end_exact(n, 0, d, CharRun::Digits);
    if d < n.len() {
        lemma_run_end_exact(n, d + 1, n.len() as int, CharRun::Digits);
    }
    assert(number_end(n, 0) == n.len());
    assert(n.subrange(0, n.len() as int) =~= n);
    let tok = TokenView {
        kind: TokenType::Number,
        literal: Some(Value::Num(number_of(n))),
        lexeme: n,
        line: 1,
    };
    let st = lex_step(n, 0, 1);
    assert(st.next == n.len() && st.line == 1 && !st.fatal && st.token == Some(tok));
    assert(st.diagnostic is None);
    assert(scan_from(n, n.len() as int, 1).tokens == seq![eof_token(1)]);
    assert(scan(n).tokens == crate::scanner::opt_seq(st.token) + seq![eof_token(1)]);
    assert(scan(n).tokens =~= seq![tok, eof_token(1)]);
    assert(scan(n).diagnostics =~= Seq::<crate::errors::DiagnosticView>::empty());
}

/// Parsing the tokens of a decimal numeral yields the literal of its number.
pub proof fn lemma_numeral_parses(n: Seq<char>)
    requires
        is_numeral(n),
    ensures
        parse_expression(scan(n).tokens, 0) == Parsed::Done(
            Tree::Literal(Value::Num(number_of(n))),
            1,
        ),
{
    lemma_numeral_scans(n);
    let toks = scan(n).tokens;
    let lit = Tree::Literal(Value::Num(number_of(n)));
    assert(parse_primary(toks, 0) == Parsed::Done(lit, 1));
    assert(parse_unary(toks, 0) == Parsed::Done(lit, 1));
    assert(parse_level(toks, 0, 0) == Parsed::Done(lit, 1));
    assert(toks[1].kind == TokenType::Eof);
    assert(fold_level(toks, lit, 1, 1) == Parsed::Done(lit, 1));
    assert(fold_level(toks, lit, 1, 2) == Parsed::Done(lit, 1));
    assert(fold_level(toks, lit, 1, 3) == Parsed::Done(lit, 1));
    assert(fold_level(toks, lit, 1, 4) == Parsed::Done(lit, 1));
    assert(parse_level(toks, 0, 1) == Parsed::Done(lit, 1));
    assert(parse_level(toks, 0, 2) == Parsed::Done(lit, 1));
    assert(parse_level(toks, 0, 3) == Parsed::Done(lit, 1));
    assert(parse_level(toks, 0, 4) == Parsed::Done(lit, 1));
    assert(parse_expression(toks, 0) == Parsed::Done(lit, 1));
}

/// Running a decimal numeral yields the number it denotes.
pub proof fn lemma_numeral_evaluates(n: Seq<char>)
    requires
        is_numeral(n),
    ensures
        run_result(n) == Ok::<Value, Fault>(Value::Num(number_of(n))),
{
    lemma_numeral_scans(n);
    lemma_numeral_parses(n);
}

/// Printing the tree parsed from a decimal numeral gives back the text handed
/// over for its one number.
pub proof fn lemma_print_parsed_numeral(n: Seq<char>, text: Seq<char>)
    requires
        is_numeral(n),
    ensures
        parse_expression(scan(n).tokens, 0) matches Parsed::Done(e, _) && numbers_of(e) == seq![
            number_of(n),
        ] && printed(e, seq![text]) == text,
{
    lemma_numeral_parses(n);
}

/// Printing a string literal gives its text.
pub proof fn lemma_print_string_literal(s: Seq<char>)
    ensures
        numbers_of(Tree::Literal(Value::Str(s))) == Seq::<u64>::empty(),
        printed(Tree::Literal(Value::Str(s)), Seq::empty()) == s,
{
}

/// A string that is never closed stops the lexer: it reports the problem, yields
/// only the end-of-input token, and nothing is parsed or evaluated.
pub proof fn lemma_unterminated_string(s: Seq<char>)
    requires
        s.len() >= 1,
        s[0] == '"',
        forall|i: int| 1 <= i < s.len() ==> s[i] != '"',
    ensures
        scan(s).fatal,
        scan(s).tokens == seq![eof_token(1 + crate::scanner::newlines(s, 1, s.len() as int))],
        scan(s).diagnostics.len() == 1,
        scan(s).diagnostics[0].message == "unterminated string."@,
        run_result(s) == Err::<Value, Fault>(Fault::Scan(scan(s).diagnostics)),
{
    lemma_run_end_exact(s, 1, s.len() as int, CharRun::StringBody);
    assert(lex_step(s, 0, 1).fatal);
}

} // verus!
