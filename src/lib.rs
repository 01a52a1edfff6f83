use vstd::prelude::*;

pub mod errors;
pub mod expr;
pub mod interpreter;
pub mod laws;
pub mod number;
pub mod parser;
pub mod printer;
pub mod scanner;
pub mod text;
pub mod token;

use crate::errors::{diagnostics_view, Diagnostic, DiagnosticView};
use crate::number::within_parse_limit;
use crate::interpreter::{eval, outcome_view, Fault, Interpreter};
use crate::parser::{failure_diagnostic, parse_expression, Parsed, Parser};
use crate::scanner::{lemma_scan_well_formed, scan, Scanner};
use crate::token::{Object, Token, Value};

verus! {

/// Why a run produced no value.
#[derive(Debug)]
pub enum InterpreterError {
    InvalidNumberOperand(Object),
    InvalidNumberOperands(Object, Object),
    InvalidStringOrNumberOperands(Object, Object),
    InvalidOperatorError(Object, Token, Object),
    ScanError(Vec<Diagnostic>),
    ParseError(Vec<Diagnostic>),
}

/// What running a source text yields: the lexer's diagnostics when it met an
/// unterminated string; else the parser's diagnostic when the tokens do not start
/// with an expression; else the value of that expression, or the evaluation error.
pub open spec fn run_result(s: Seq<char>) -> Result<Value, Fault> {
    let sc = scan(s);
    if sc.fatal {
        Err(Fault::Scan(sc.diagnostics))
    } else {
        match parse_expression(sc.tokens, 0) {
            Parsed::Done(e, p) => eval(e),
            Parsed::Failed(i, m) => Err(Fault::Parse(seq![failure_diagnostic(sc.tokens, i, m)])),
        }
    }
}

/// Lexes, parses and evaluates one source text.
pub fn run(source: &str) -> (r: Result<Object, InterpreterError>)
    requires
        within_parse_limit(source@.len()),
    ensures
        outcome_view(r) == run_result(source@),
{
    run_with_diagnostics(source).0
}

/// Lexes, parses and evaluates one source text, and hands back beside the outcome
/// the lexer's non-fatal diagnostics (when the lexer stops, they are in the error).
pub fn run_with_diagnostics(source: &str) -> (r: (Result<Object, InterpreterError>, Vec<Diagnostic>))
    requires
        within_parse_limit(source@.len()),
    ensures
        outcome_view(r.0) == run_result(source@),
        diagnostics_view(r.1@) == if scan(source@).fatal {
            Seq::<DiagnosticView>::empty()
        } else {
            scan(source@).diagnostics
        },
{
    let mut scanner = Scanner::new(source);
    let tokens = scanner.scan_tokens();
    assert(Seq::<DiagnosticView>::empty() + scan(source@).diagnostics =~= scan(source@).diagnostics);
    if scanner.had_fatal_error() {
        let d = scanner.into_diagnostics();
        let none: Vec<Diagnostic> = Vec::new();
        assert(diagnostics_view(none@) =~= Seq::<DiagnosticView>::empty());
        return (Err(InterpreterError::ScanError(d)), none);
    }
    let warnings = scanner.into_diagnostics();
    proof {
        lemma_scan_well_formed(source@, 0, 1);
        assert(Seq::empty() + scan(source@).tokens =~= scan(source@).tokens);
    }
    let mut parser = Parser::new(tokens.as_slice());
    let outcome = match parser.parse() {
        Some(e) => {
            let mut interpreter = Interpreter;
            interpreter.interpret(&e)
        },
        None => {
            let d = parser.into_diagnostics();
            Err(InterpreterError::ParseError(d))
        },
    };
    (outcome, warnings)
}

/// A diagnostic with no location.
pub fn error(line: usize, msg: &str) -> (r: Diagnostic)
    ensures
        r@ == (DiagnosticView { line: line as nat, loc: Seq::empty(), message: msg@ }),
{
    proof {
        reveal_strlit("");
        assert(""@ =~= Seq::<char>::empty());
    }
    report(line, "", msg)
}

/// A diagnostic at a line: where on the line, and what.
pub fn report(line: usize, loc: &str, msg: &str) -> (r: Diagnostic)
    ensures
        r@ == (DiagnosticView { line: line as nat, loc: loc@, message: msg@ }),
{
    Diagnostic {
        line,
        loc: <String as vstd::string::StringExecFns>::from_str(loc),
        message: <String as vstd::string::StringExecFns>::from_str(msg),
    }
}

} // verus!
