use treelox::expr::Expr;
use treelox::parser::Parser;
use treelox::printer::AstPrinter;
use treelox::scanner::Scanner;
use treelox::token::{Location, Object, Token, TokenType};

fn render(expr: &Expr) -> Vec<String> {
    AstPrinter.numbers(expr).iter().map(|b| f64::from_bits(*b).to_string()).collect()
}

fn print_source(src: &str) -> String {
    let mut scanner = Scanner::new(src);
    let tokens = scanner.scan_tokens();
    let expr = Parser::new(&tokens).parse().unwrap();
    let texts = render(&expr);
    AstPrinter.print(expr, &texts).unwrap()
}

#[test]
fn test_multiplication() {
    let expression = Expr::Binary {
        left: Box::new(Expr::Unary {
            operator: Token {
                kind: TokenType::Minus,
                literal: None,
                loc: Location { line: 1, lexeme: "-".to_string() },
            },
            right: Box::new(Expr::Literal { value: Object::Number(123.0f64.to_bits()) }),
        }),
        operator: Token {
            kind: TokenType::Star,
            literal: None,
            loc: Location { lexeme: "*".to_string(), line: 1 },
        },
        right: Box::new(Expr::Grouping {
            expr: Box::new(Expr::Literal { value: Object::Number(45.67f64.to_bits()) }),
        }),
    };

    let texts = render(&expression);
    let result = AstPrinter.print(expression, &texts).unwrap();

    assert_eq!(result, "(* (- 123) (group 45.67))");
}

#[test]
fn printing_a_parsed_literal_gives_its_text() {
    assert_eq!(print_source("45.67"), "45.67");
    assert_eq!(print_source("123"), "123");
    assert_eq!(print_source("\"abc\""), "abc");
    assert_eq!(print_source("true"), "true");
    assert_eq!(print_source("false"), "false");
    assert_eq!(print_source("nil"), "nil");
}

#[test]
fn printing_nested_expressions() {
    assert_eq!(print_source("1 + 2 * 3"), "(+ 1 (* 2 3))");
    assert_eq!(print_source("!(1 < 2) == false"), "(== (! (group (< 1 2))) false)");
    assert_eq!(print_source("- - 5"), "(- (- 5))");
}

#[test]
fn numbers_come_left_to_right() {
    let mut scanner = Scanner::new("1 + (2 - 3) * 4");
    let tokens = scanner.scan_tokens();
    let expr = Parser::new(&tokens).parse().unwrap();
    let bits: Vec<f64> = AstPrinter.numbers(&expr).iter().map(|b| f64::from_bits(*b)).collect();
    assert_eq!(bits, vec![1.0, 2.0, 3.0, 4.0]);
}
