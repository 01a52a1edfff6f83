use treelox::errors::Errors;
use treelox::expr::Expr;
use treelox::interpreter::Interpreter;
use treelox::parser::Parser;
use treelox::scanner::Scanner;
use treelox::token::{Location, Object, Token, TokenType};
use treelox::number::within_limit;
use treelox::{error, report, run, run_with_diagnostics, InterpreterError};

fn scan(src: &str) -> (Vec<Token>, Scanner) {
    let mut scanner = Scanner::new(src);
    let tokens = scanner.scan_tokens();
    (tokens, scanner)
}

fn kinds(tokens: &[Token]) -> Vec<TokenType> {
    tokens.iter().map(|t| t.kind).collect()
}

fn number(v: f64) -> Object {
    Object::Number(v.to_bits())
}

fn as_number(o: &Object) -> f64 {
    match o {
        Object::Number(bits) => f64::from_bits(*bits),
        other => panic!("not a number: {:?}", other),
    }
}

fn token(kind: TokenType, lexeme: &str) -> Token {
    Token { kind, literal: None, loc: Location { lexeme: lexeme.to_string(), line: 1 } }
}

fn run_value(src: &str) -> Object {
    match run(src) {
        Ok(v) => v,
        Err(e) => panic!("run failed: {:?}", e),
    }
}

fn same_value(a: &Object, b: &Object) -> bool {
    match (a, b) {
        (Object::String(x), Object::String(y)) => x == y,
        (Object::Number(x), Object::Number(y)) => x == y,
        (Object::Identifier(x), Object::Identifier(y)) => x == y,
        (Object::Bool(x), Object::Bool(y)) => x == y,
        (Object::Nil, Object::Nil) => true,
        _ => false,
    }
}

#[test]
fn empty_source_yields_only_eof() {
    let (tokens, scanner) = scan("");
    assert_eq!(kinds(&tokens), vec![TokenType::Eof]);
    assert_eq!(tokens[0].loc.line, 1);
    assert_eq!(tokens[0].loc.lexeme, "EOF");
    assert!(!scanner.had_fatal_error());
    assert!(scanner.diagnostics().reported.is_empty());
}

#[test]
fn end_to_end_multiplication_tokens() {
    let (tokens, _) = scan("-123 * (45.67)");
    assert_eq!(
        kinds(&tokens),
        vec![
            TokenType::Minus,
            TokenType::Number,
            TokenType::Star,
            TokenType::LeftParen,
            TokenType::Number,
            TokenType::RightParen,
            TokenType::Eof
        ]
    );
    assert!(same_value(tokens[1].literal.as_ref().unwrap(), &number(123.0)));
    assert!(same_value(tokens[4].literal.as_ref().unwrap(), &number(45.67)));
    assert_eq!(tokens[4].loc.lexeme, "45.67");
}

#[test]
fn end_to_end_multiplication_tree() {
    let (tokens, _) = scan("-123 * (45.67)");
    let mut parser = Parser::new(&tokens);
    let tree = parser.parse().unwrap();
    match tree {
        Expr::Binary { left, operator, right } => {
            assert_eq!(operator.kind, TokenType::Star);
            match *left {
                Expr::Unary { operator, right } => {
                    assert_eq!(operator.kind, TokenType::Minus);
                    match *right {
                        Expr::Literal { value } => assert!(same_value(&value, &number(123.0))),
                        other => panic!("unexpected {:?}", other),
                    }
                }
                other => panic!("unexpected {:?}", other),
            }
            match *right {
                Expr::Grouping { expr } => match *expr {
                    Expr::Literal { value } => assert!(same_value(&value, &number(45.67))),
                    other => panic!("unexpected {:?}", other),
                },
                other => panic!("unexpected {:?}", other),
            }
        }
        other => panic!("unexpected {:?}", other),
    }
}

#[test]
fn end_to_end_multiplication_value() {
    let v = run_value("-123 * (45.67)");
    assert_eq!(as_number(&v), -123.0 * 45.67);
    assert_eq!(format!("{}", as_number(&v)), "-5617.41");
}

#[test]
fn numeral_evaluates_to_its_value() {
    assert_eq!(as_number(&run_value("45.67")), 45.67);
    assert_eq!(as_number(&run_value("0")), 0.0);
    assert_eq!(as_number(&run_value("123")), 123.0);
    assert_eq!(as_number(&run_value("0.1")), 0.1);
}

#[test]
fn double_grouping_is_transparent() {
    assert!(same_value(&run_value("((45.67))"), &run_value("45.67")));
    assert!(same_value(&run_value("((\"x\"))"), &Object::String("x".to_string())));
}

#[test]
fn string_concatenation_associates() {
    let a = run_value("\"a\" + (\"b\" + \"c\")");
    let b = run_value("(\"a\" + \"b\") + \"c\"");
    assert!(same_value(&a, &b));
    assert!(same_value(&a, &Object::String("abc".to_string())));
}

#[test]
fn double_negation_gives_number_back() {
    assert!(same_value(&run_value("- - 5"), &run_value("5")));
    assert_eq!(as_number(&run_value("-5")), -5.0);
}

#[test]
fn comparison_chain_is_left_associative() {
    let (tokens, _) = scan("1 < 2 == true");
    let mut parser = Parser::new(&tokens);
    match parser.parse().unwrap() {
        Expr::Binary { left, operator, right } => {
            assert_eq!(operator.kind, TokenType::EqualEqual);
            assert!(matches!(*left, Expr::Binary { ref operator, .. } if operator.kind == TokenType::Less));
            assert!(matches!(*right, Expr::Literal { value: Object::Bool(true) }));
        }
        other => panic!("unexpected {:?}", other),
    }
    assert!(same_value(&run_value("1 < 2 == true"), &Object::Bool(true)));
}

#[test]
fn number_plus_string_is_an_error() {
    match run("1 + \"a\"") {
        Err(InterpreterError::InvalidStringOrNumberOperands(a, b)) => {
            assert!(same_value(&a, &number(1.0)));
            assert!(same_value(&b, &Object::String("a".to_string())));
        }
        other => panic!("unexpected {:?}", other),
    }
}

#[test]
fn nil_equals_false_is_false() {
    assert!(same_value(&run_value("nil == false"), &Object::Bool(false)));
    assert!(same_value(&run_value("nil != false"), &Object::Bool(true)));
    assert!(same_value(&run_value("1 == \"1\""), &Object::Bool(false)));
    assert!(same_value(&run_value("nil == nil"), &Object::Bool(true)));
}

#[test]
fn unterminated_string_stops_everything() {
    let (tokens, scanner) = scan("\"abc");
    assert_eq!(kinds(&tokens), vec![TokenType::Eof]);
    assert!(scanner.had_fatal_error());
    match run("\"abc") {
        Err(InterpreterError::ScanError(d)) => {
            assert_eq!(d.len(), 1);
            assert_eq!(d[0].message, "unterminated string.");
            assert_eq!(d[0].line, 1);
        }
        other => panic!("unexpected {:?}", other),
    }
}

#[test]
fn arithmetic_follows_binary64() {
    assert_eq!(as_number(&run_value("1 + 2")), 3.0);
    assert_eq!(as_number(&run_value("10 - 4")), 6.0);
    assert_eq!(as_number(&run_value("1.5 * 4")), 6.0);
    assert_eq!(as_number(&run_value("7 / 2")), 3.5);
    assert_eq!(as_number(&run_value("0.1 + 0.2")), 0.1 + 0.2);
    assert_eq!(as_number(&run_value("1 / 0")), f64::INFINITY);
    assert!(as_number(&run_value("0 / 0")).is_nan());
    assert_eq!(as_number(&run_value("2 + 3 * 4")), 14.0);
    assert_eq!(as_number(&run_value("(2 + 3) * 4")), 20.0);
    assert_eq!(as_number(&run_value("8 - 2 - 1")), 5.0);
}

#[test]
fn comparisons_follow_binary64() {
    assert!(same_value(&run_value("2 > 1"), &Object::Bool(true)));
    assert!(same_value(&run_value("1 >= 1"), &Object::Bool(true)));
    assert!(same_value(&run_value("2 < 1"), &Object::Bool(false)));
    assert!(same_value(&run_value("1 <= 0.5"), &Object::Bool(false)));
    assert!(same_value(&run_value("0 / 0 == 0 / 0"), &Object::Bool(false)));
    assert!(same_value(&run_value("0 == -0"), &Object::Bool(true)));
}

#[test]
fn bang_negates_truthiness() {
    assert!(same_value(&run_value("!nil"), &Object::Bool(true)));
    assert!(same_value(&run_value("!false"), &Object::Bool(true)));
    assert!(same_value(&run_value("!0"), &Object::Bool(false)));
    assert!(same_value(&run_value("!\"\""), &Object::Bool(false)));
    assert!(same_value(&run_value("!!true"), &Object::Bool(true)));
}

#[test]
fn truthiness_of_values() {
    assert!(!Object::Nil.is_truthy());
    assert!(!Object::Bool(false).is_truthy());
    assert!(Object::Bool(true).is_truthy());
    assert!(number(0.0).is_truthy());
    assert!(Object::String(String::new()).is_truthy());
}

#[test]
fn negating_a_non_number_fails() {
    match run("-\"a\"") {
        Err(InterpreterError::InvalidNumberOperand(v)) => {
            assert!(same_value(&v, &Object::String("a".to_string())))
        }
        other => panic!("unexpected {:?}", other),
    }
}

#[test]
fn numeric_operator_on_non_numbers_fails() {
    match run("1 - true") {
        Err(InterpreterError::InvalidNumberOperands(a, b)) => {
            assert!(same_value(&a, &number(1.0)));
            assert!(same_value(&b, &Object::Bool(true)));
        }
        other => panic!("unexpected {:?}", other),
    }
    assert!(matches!(run("\"a\" < \"b\""), Err(InterpreterError::InvalidNumberOperands(_, _))));
    assert!(matches!(run("nil * 2"), Err(InterpreterError::InvalidNumberOperands(_, _))));
}

#[test]
fn unknown_operator_fails() {
    let expr = Expr::Binary {
        left: Box::new(Expr::Literal { value: number(1.0) }),
        operator: token(TokenType::Comma, ","),
        right: Box::new(Expr::Literal { value: number(2.0) }),
    };
    match Interpreter.interpret(&expr) {
        Err(InterpreterError::InvalidOperatorError(_, t, _)) => assert_eq!(t.kind, TokenType::Comma),
        other => panic!("unexpected {:?}", other),
    }
}

#[test]
fn missing_paren_is_a_parse_error() {
    match run("(1 + 2") {
        Err(InterpreterError::ParseError(d)) => {
            assert_eq!(d.len(), 1);
            assert_eq!(d[0].message, "Expect ')' after expression.");
            assert_eq!(d[0].loc, " at end");
        }
        other => panic!("unexpected {:?}", other),
    }
}

#[test]
fn missing_operand_is_a_parse_error() {
    match run("1 + )") {
        Err(InterpreterError::ParseError(d)) => {
            assert_eq!(d.len(), 1);
            assert_eq!(d[0].message, "Expect expression.");
            assert_eq!(d[0].loc, "at ')'");
        }
        other => panic!("unexpected {:?}", other),
    }
    assert!(matches!(run(""), Err(InterpreterError::ParseError(_))));
}

#[test]
fn trailing_tokens_are_ignored() {
    assert_eq!(as_number(&run_value("1 2")), 1.0);
}

#[test]
fn operators_and_comments() {
    let (tokens, _) = scan("! != = == < <= > >= / // rest\n{ } , . ; +");
    assert_eq!(
        kinds(&tokens),
        vec![
            TokenType::Bang,
            TokenType::BangEqual,
            TokenType::Equal,
            TokenType::EqualEqual,
            TokenType::Less,
            TokenType::LessEqual,
            TokenType::Greater,
            TokenType::GreaterEqual,
            TokenType::Slash,
            TokenType::LeftBrace,
            TokenType::RightBrace,
            TokenType::Comma,
            TokenType::Dot,
            TokenType::Semicolon,
            TokenType::Plus,
            TokenType::Eof
        ]
    );
    assert_eq!(tokens[9].loc.line, 2);
    assert_eq!(tokens[1].loc.lexeme, "!=");
}

#[test]
fn keywords_and_identifiers() {
    let (tokens, _) = scan("and class else false for fun if nil or print return super this true var while foo _bar x1");
    assert_eq!(
        kinds(&tokens),
        vec![
            TokenType::And,
            TokenType::Class,
            TokenType::Else,
            TokenType::False,
            TokenType::For,
            TokenType::Fun,
            TokenType::If,
            TokenType::Nil,
            TokenType::Or,
            TokenType::Print,
            TokenType::Return,
            TokenType::Super,
            TokenType::This,
            TokenType::True,
            TokenType::Var,
            TokenType::While,
            TokenType::Identifier,
            TokenType::Identifier,
            TokenType::Identifier,
            TokenType::Eof
        ]
    );
    assert!(tokens[0].literal.is_none());
    assert!(same_value(tokens[16].literal.as_ref().unwrap(), &Object::String("foo".to_string())));
    assert_eq!(tokens[17].loc.lexeme, "_bar");
    assert_eq!(tokens[18].loc.lexeme, "x1");
}

#[test]
fn number_needs_a_digit_after_the_dot() {
    let (tokens, _) = scan("1. 2.5.3");
    assert_eq!(
        kinds(&tokens),
        vec![
            TokenType::Number,
            TokenType::Dot,
            TokenType::Number,
            TokenType::Dot,
            TokenType::Number,
            TokenType::Eof
        ]
    );
    assert_eq!(tokens[2].loc.lexeme, "2.5");
}

#[test]
fn strings_span_lines() {
    let (tokens, _) = scan("\"a\nb\" x");
    assert_eq!(kinds(&tokens), vec![TokenType::String, TokenType::Identifier, TokenType::Eof]);
    assert!(same_value(tokens[0].literal.as_ref().unwrap(), &Object::String("a\nb".to_string())));
    assert_eq!(tokens[0].loc.lexeme, "\"a\nb\"");
    assert_eq!(tokens[0].loc.line, 2);
    assert_eq!(tokens[2].loc.line, 2);
}

#[test]
fn unexpected_character_is_reported_and_skipped() {
    let (tokens, scanner) = scan("1 @ 2\n#");
    assert_eq!(kinds(&tokens), vec![TokenType::Number, TokenType::Number, TokenType::Eof]);
    assert!(!scanner.had_fatal_error());
    let d = &scanner.diagnostics().reported;
    assert_eq!(d.len(), 2);
    assert_eq!(d[0].message, "Unexpected character: @");
    assert_eq!(d[0].line, 1);
    assert_eq!(d[1].message, "Unexpected character: #");
    assert_eq!(d[1].line, 2);
    assert_eq!(as_number(&run_value("1 @ + 2")), 3.0);
}

#[test]
fn diagnostics_accumulate() {
    let mut errors = Errors::new();
    assert!(!errors.had_error);
    errors.error(3, "boom");
    errors.error_token(&token(TokenType::Eof, "EOF"), "late");
    errors.error_token(&token(TokenType::Plus, "+"), "odd");
    assert!(errors.had_error);
    assert_eq!(errors.reported.len(), 3);
    assert_eq!(errors.reported[0].line, 3);
    assert_eq!(errors.reported[0].loc, "");
    assert_eq!(errors.reported[1].loc, " at end");
    assert_eq!(errors.reported[2].loc, "at '+'");
    assert_eq!(errors.reported[2].message, "odd");
    let d = error(7, "plain");
    assert_eq!(d.line, 7);
    assert_eq!(d.loc, "");
    assert_eq!(d.message, "plain");
    let r = report(2, "at 'x'", "odd");
    assert_eq!(r.line, 2);
    assert_eq!(r.loc, "at 'x'");
    assert_eq!(r.message, "odd");
}

#[test]
fn parser_reports_through_its_errors() {
    let tokens = vec![token(TokenType::RightParen, ")"), token(TokenType::Eof, "EOF")];
    let mut parser = Parser::new(&tokens);
    assert!(parser.parse().is_none());
    assert!(parser.errors().had_error);
    assert_eq!(parser.errors().reported[0].message, "Expect expression.");
}

#[test]
fn multiplication_tree_evaluates() {
    let expression = Expr::Binary {
        left: Box::new(Expr::Unary {
            operator: token(TokenType::Minus, "-"),
            right: Box::new(Expr::Literal { value: number(123.0) }),
        }),
        operator: token(TokenType::Star, "*"),
        right: Box::new(Expr::Grouping {
            expr: Box::new(Expr::Literal { value: number(45.67) }),
        }),
    };
    let v = Interpreter.interpret(&expression).unwrap();
    assert_eq!(as_number(&v), -123.0 * 45.67);
}

#[test]
fn run_hands_back_lexical_warnings() {
    let (outcome, warnings) = run_with_diagnostics("1 @ + 2");
    assert_eq!(as_number(&outcome.unwrap()), 3.0);
    assert_eq!(warnings.len(), 1);
    assert_eq!(warnings[0].message, "Unexpected character: @");
    assert_eq!(warnings[0].line, 1);
    let (outcome, warnings) = run_with_diagnostics("# \"abc");
    assert!(matches!(outcome, Err(InterpreterError::ScanError(ref d)) if d.len() == 2));
    assert!(warnings.is_empty());
    let (outcome, warnings) = run_with_diagnostics("2 * 3");
    assert_eq!(as_number(&outcome.unwrap()), 6.0);
    assert!(warnings.is_empty());
}

#[test]
fn parse_limit_bounds_source_length() {
    assert!(within_limit(0));
    assert!(within_limit(1000));
    assert!(within_limit(0x07ff_ffff));
    assert!(!within_limit(0x0800_0000));
    assert!(!within_limit(0x8000_0000));
    assert!(!within_limit(usize::MAX));
}
