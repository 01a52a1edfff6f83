use crate::token::{Token, TokenType};
use vstd::prelude::*;
use vstd::string::StringExecFns;

verus! {

/// One reported problem: its line, where on the line, and what.
#[derive(Debug)]
pub struct Diagnostic {
    pub line: usize,
    pub loc: String,
    pub message: String,
}

/// The mathematical model of a `Diagnostic`.
pub struct DiagnosticView {
    pub line: nat,
    pub loc: Seq<char>,
    pub message: Seq<char>,
}

impl View for Diagnostic {
    type V = DiagnosticView;

    open spec fn view(&self) -> DiagnosticView {
        DiagnosticView { line: self.line as nat, loc: self.loc@, message: self.message@ }
    }
}

pub open spec fn diagnostics_view(d: Seq<Diagnostic>) -> Seq<DiagnosticView> {
    d.map_values(|x: Diagnostic| x@)
}

/// The diagnostics gathered during one pass, and whether any was reported.
#[derive(Debug)]
pub struct Errors {
    pub had_error: bool,
    pub reported: Vec<Diagnostic>,
}

/// The location text of a diagnostic about a token.
pub open spec fn token_loc(kind: TokenType, lexeme: Seq<char>) -> Seq<char> {
    if kind == TokenType::Eof {
        seq![' ', 'a', 't', ' ', 'e', 'n', 'd']
    } else {
        seq!['a', 't', ' ', '\''] + lexeme + seq!['\'']
    }
}

impl Errors {
    pub open spec fn log(&self) -> Seq<DiagnosticView> {
        diagnostics_view(self.reported@)
    }

    pub fn new() -> (r: Errors)
        ensures
            !r.had_error,
            r.log() == Seq::<DiagnosticView>::empty(),
    {
        let r = Errors { had_error: false, reported: Vec::new() };
        assert(r.log() =~= Seq::<DiagnosticView>::empty());
        r
    }

    /// Records a diagnostic with no location.
    pub fn error(&mut self, line: usize, message: &str)
        ensures
            final(self).had_error,
            final(self).log() == old(self).log().push(
                DiagnosticView { line: line as nat, loc: Seq::empty(), message: message@ },
            ),
    {
        proof {
            reveal_strlit("");
            assert(""@ =~= Seq::<char>::empty());
        }
        self.report(line, "", message);
    }

    /// Records a diagnostic.
    pub fn report(&mut self, line: usize, loc: &str, message: &str)
        ensures
            final(self).had_error,
            final(self).log() == old(self).log().push(
                DiagnosticView { line: line as nat, loc: loc@, message: message@ },
            ),
    {
        proof {
            reveal_strlit("");
        }
        let d = Diagnostic {
            line,
            loc: <String as StringExecFns>::from_str(loc),
            message: <String as StringExecFns>::from_str(message),
        };
        self.reported.push(d);
        self.had_error = true;
        assert(self.log() =~= old(self).log().push(
            DiagnosticView { line: line as nat, loc: loc@, message: message@ },
        ));
    }

    /// Records a diagnostic about a token: " at end" for the end of input, else the
    /// token's text.
    pub fn error_token(&mut self, token: &Token, message: &str)
        ensures
            final(self).had_error,
            final(self).log() == old(self).log().push(
                DiagnosticView {
                    line: token.loc.line as nat,
                    loc: token_loc(token.kind, token.loc.lexeme@),
                    message: message@,
                },
            ),
    {
        if token.kind == TokenType::Eof {
            proof {
                reveal_strlit(" at end");
                assert(" at end"@ =~= token_loc(token.kind, token.loc.lexeme@));
            }
            self.report(token.loc.line, " at end", message);
        } else {
            proof {
                reveal_strlit("at '");
                reveal_strlit("'");
            }
            let mut loc = <String as StringExecFns>::from_str("at '");
            loc.append(token.loc.lexeme.as_str());
            loc.append("'");
            assert(loc@ =~= token_loc(token.kind, token.loc.lexeme@));
            self.report(token.loc.line, loc.as_str(), message);
        }
    }
}

} // verus!
