use crate::errors::{diagnostics_view, Diagnostic, DiagnosticView, Errors};
use crate::parser::well_formed_tokens;
use crate::number::{is_digit, numeral_split, within_parse_limit, number_of, parse_number};
use crate::text::{chars_of, text_of};
use crate::token::{option_view, Location, Object, Token, TokenType, TokenView, Value};
use vstd::prelude::*;
use vstd::slice::slice_subrange;
use vstd::string::StringExecFns;

verus! {

/// The classes of character that a lexeme runs over.
#[derive(Clone, Copy, Debug, PartialEq, Eq, Structural)]
pub enum CharRun {
    Digits,
    Alphanumeric,
    LineRest,
    StringBody,
}

pub open spec fn is_alpha(c: char) -> bool {
    ('a' <= c && c <= 'z') || ('A' <= c && c <= 'Z') || c == '_'
}

pub open spec fn is_alphanumeric(c: char) -> bool {
    ('a' <= c && c <= 'z') || ('A' <= c && c <= 'Z') || is_digit(c)
}

pub open spec fn in_run(c: char, k: CharRun) -> bool {
    match k {
        CharRun::Digits => is_digit(c),
        CharRun::Alphanumeric => is_alphanumeric(c),
        CharRun::LineRest => c != '\n',
        CharRun::StringBody => c != '"',
    }
}

/// The end of the longest run of class `k` that starts at `i`.
pub open spec fn run_end(s: Seq<char>, i: int, k: CharRun) -> int
    decreases s.len() - i,
{
    if i < 0 || i >= s.len() || !in_run(s[i], k) {
        i
    } else {
        run_end(s, i + 1, k)
    }
}

/// The number of newlines in `s[a..b]`.
pub open spec fn newlines(s: Seq<char>, a: int, b: int) -> nat
    decreases b - a,
{
    if b <= a {
        0
    } else {
        newlines(s, a, b - 1) + if s[b - 1] == '\n' {
            1nat
        } else {
            0nat
        }
    }
}

/// The reserved words and their kinds.
pub open spec fn keyword_of(w: Seq<char>) -> Option<TokenType> {
    if w == seq!['a', 'n', 'd'] {
        Some(TokenType::And)
    } else if w == seq!['c', 'l', 'a', 's', 's'] {
        Some(TokenType::Class)
    } else if w == seq!['e', 'l', 's', 'e'] {
        Some(TokenType::Else)
    } else if w == seq!['f', 'a', 'l', 's', 'e'] {
        Some(TokenType::False)
    } else if w == seq!['f', 'o', 'r'] {
        Some(TokenType::For)
    } else if w == seq!['f', 'u', 'n'] {
        Some(TokenType::Fun)
    } else if w == seq!['i', 'f'] {
        Some(TokenType::If)
    } else if w == seq!['n', 'i', 'l'] {
        Some(TokenType::Nil)
    } else if w == seq!['o', 'r'] {
        Some(TokenType::Or)
    } else if w == seq!['p', 'r', 'i', 'n', 't'] {
        Some(TokenType::Print)
    } else if w == seq!['r', 'e', 't', 'u', 'r', 'n'] {
        Some(TokenType::Return)
    } else if w == seq!['s', 'u', 'p', 'e', 'r'] {
        Some(TokenType::Super)
    } else if w == seq!['t', 'h', 'i', 's'] {
        Some(TokenType::This)
    } else if w == seq!['t', 'r', 'u', 'e'] {
        Some(TokenType::True)
    } else if w == seq!['v', 'a', 'r'] {
        Some(TokenType::Var)
    } else if w == seq!['w', 'h', 'i', 'l', 'e'] {
        Some(TokenType::While)
    } else {
        None
    }
}

/// The kind of a one-character token, if `c` is one.
pub open spec fn single_kind(c: char) -> Option<TokenType> {
    if c == '(' {
        Some(TokenType::LeftParen)
    } else if c == ')' {
        Some(TokenType::RightParen)
    } else if c == '{' {
        Some(TokenType::LeftBrace)
    } else if c == '}' {
        Some(TokenType::RightBrace)
    } else if c == ',' {
        Some(TokenType::Comma)
    } else if c == '.' {
        Some(TokenType::Dot)
    } else if c == '-' {
        Some(TokenType::Minus)
    } else if c == '+' {
        Some(TokenType::Plus)
    } else if c == ';' {
        Some(TokenType::Semicolon)
    } else if c == '*' {
        Some(TokenType::Star)
    } else {
        None
    }
}

/// For `!`, `=`, `<`, `>`: the kinds of the one- and the two-character token.
pub open spec fn pair_kinds(c: char) -> Option<(TokenType, TokenType)> {
    if c == '!' {
        Some((TokenType::Bang, TokenType::BangEqual))
    } else if c == '=' {
        Some((TokenType::Equal, TokenType::EqualEqual))
    } else if c == '<' {
        Some((TokenType::Less, TokenType::LessEqual))
    } else if c == '>' {
        Some((TokenType::Greater, TokenType::GreaterEqual))
    } else {
        None
    }
}

/// What one step of the lexer does at a position.
pub struct Lexed {
    pub next: int,
    pub line: nat,
    pub token: Option<TokenView>,
    pub diagnostic: Option<DiagnosticView>,
    pub fatal: bool,
}

pub open spec fn token_at(
    s: Seq<char>,
    a: int,
    b: int,
    line: nat,
    kind: TokenType,
    literal: Option<Value>,
) -> Lexed {
    Lexed {
        next: b,
        line,
        token: Some(TokenView { kind, literal, lexeme: s.subrange(a, b), line }),
        diagnostic: None,
        fatal: false,
    }
}

pub open spec fn skip_to(b: int, line: nat) -> Lexed {
    Lexed { next: b, line, token: None, diagnostic: None, fatal: false }
}

pub open spec fn unexpected_message(c: char) -> Seq<char> {
    "Unexpected character: "@ + seq![c]
}

/// The end of a number literal that starts at `i`: digits, then a dot and digits
/// only when a digit follows the dot.
pub open spec fn number_end(s: Seq<char>, i: int) -> int {
    let d = run_end(s, i, CharRun::Digits);
    if d + 1 < s.len() && s[d] == '.' && is_digit(s[d + 1]) {
        run_end(s, d + 1, CharRun::Digits)
    } else {
        d
    }
}

/// One step of the lexer at `pos`, on line `line`.
pub open spec fn lex_step(s: Seq<char>, pos: int, line: nat) -> Lexed {
    let c = s[pos];
    if single_kind(c) is Some {
        token_at(s, pos, pos + 1, line, single_kind(c)->0, None)
    } else if let Some((one, two)) = pair_kinds(c) {
        if pos + 1 < s.len() && s[pos + 1] == '=' {
            token_at(s, pos, pos + 2, line, two, None)
        } else {
            token_at(s, pos, pos + 1, line, one, None)
        }
    } else if c == '/' {
        if pos + 1 < s.len() && s[pos + 1] == '/' {
            skip_to(run_end(s, pos + 2, CharRun::LineRest), line)
        } else {
            token_at(s, pos, pos + 1, line, TokenType::Slash, None)
        }
    } else if c == ' ' || c == '\r' || c == '\t' {
        skip_to(pos + 1, line)
    } else if c == '\n' {
        skip_to(pos + 1, line + 1)
    } else if c == '"' {
        let close = run_end(s, pos + 1, CharRun::StringBody);
        let l = line + newlines(s, pos + 1, close);
        if close >= s.len() {
            Lexed {
                next: close,
                line: l,
                token: None,
                diagnostic: Some(
                    DiagnosticView {
                        line: l,
                        loc: Seq::empty(),
                        message: "unterminated string."@,
                    },
                ),
                fatal: true,
            }
        } else {
            token_at(
                s,
                pos,
                close + 1,
                l,
                TokenType::String,
                Some(Value::Str(s.subrange(pos + 1, close))),
            )
        }
    } else if is_digit(c) {
        let e = number_end(s, pos);
        token_at(
            s,
            pos,
            e,
            line,
            TokenType::Number,
            Some(Value::Num(number_of(s.subrange(pos, e)))),
        )
    } else if is_alpha(c) {
        let e = run_end(s, pos + 1, CharRun::Alphanumeric);
        let w = s.subrange(pos, e);
        match keyword_of(w) {
            Some(k) => token_at(s, pos, e, line, k, None),
            None => token_at(s, pos, e, line, TokenType::Identifier, Some(Value::Str(w))),
        }
    } else {
        Lexed {
            next: pos + 1,
            line,
            token: None,
            diagnostic: Some(
                DiagnosticView { line, loc: Seq::empty(), message: unexpected_message(c) },
            ),
            fatal: false,
        }
    }
}

pub open spec fn eof_token(line: nat) -> TokenView {
    TokenView { kind: TokenType::Eof, literal: None, lexeme: seq!['E', 'O', 'F'], line }
}

pub open spec fn opt_seq<T>(o: Option<T>) -> Seq<T> {
    match o {
        Some(x) => seq![x],
        None => Seq::empty(),
    }
}

/// What scanning from a position yields.
pub struct Scanned {
    pub tokens: Seq<TokenView>,
    pub diagnostics: Seq<DiagnosticView>,
    pub fatal: bool,
}

pub proof fn lemma_run_end_bounds(s: Seq<char>, i: int, k: CharRun)
    requires
        0 <= i <= s.len(),
    ensures
        i <= run_end(s, i, k) <= s.len(),
    decreases s.len() - i,
{
    if i < s.len() && in_run(s[i], k) {
        lemma_run_end_bounds(s, i + 1, k);
    }
}

pub proof fn lemma_lex_step_advances(s: Seq<char>, pos: int, line: nat)
    requires
        0 <= pos < s.len(),
    ensures
        pos < lex_step(s, pos, line).next <= s.len(),
        lex_step(s, pos, line).line >= line,
        lex_step(s, pos, line).fatal ==> lex_step(s, pos, line).next == s.len(),
{
    lemma_run_end_bounds(s, pos + 1, CharRun::StringBody);
    lemma_run_end_bounds(s, pos + 1, CharRun::Alphanumeric);
    lemma_run_end_bounds(s, pos + 1, CharRun::Digits);
    if is_digit(s[pos]) {
        assert(run_end(s, pos, CharRun::Digits) == run_end(s, pos + 1, CharRun::Digits));
    }
    let d = run_end(s, pos, CharRun::Digits);
    if d + 1 < s.len() {
        lemma_run_end_bounds(s, d + 1, CharRun::Digits);
    }
    if pos + 2 <= s.len() {
        lemma_run_end_bounds(s, pos + 2, CharRun::LineRest);
    }
}

pub proof fn lemma_run_contents(s: Seq<char>, i: int, k: CharRun)
    requires
        0 <= i <= s.len(),
    ensures
        forall|j: int| i <= j < run_end(s, i, k) ==> in_run(#[trigger] s[j], k),
    decreases s.len() - i,
{
    if i < s.len() && in_run(s[i], k) {
        lemma_run_contents(s, i + 1, k);
    }
}

/// A run of class `k` from `i` ends at `j` when every character in between is in
/// the class and the one at `j` is not, or the text ends there.
pub proof fn lemma_run_end_exact(s: Seq<char>, i: int, j: int, k: CharRun)
    requires
        0 <= i <= j <= s.len(),
        forall|m: int| i <= m < j ==> in_run(#[trigger] s[m], k),
        j == s.len() || !in_run(s[j], k),
    ensures
        run_end(s, i, k) == j,
    decreases j - i,
{
    if i < j {
        lemma_run_end_exact(s, i + 1, j, k);
    }
}

/// Every token sequence the lexer yields can be handed to the parser.
pub proof fn lemma_scan_well_formed(s: Seq<char>, pos: int, line: nat)
    requires
        0 <= pos,
    ensures
        well_formed_tokens(scan_from(s, pos, line).tokens),
    decreases s.len() - pos,
{
    if pos < s.len() {
        lemma_lex_step_advances(s, pos, line);
        let st = lex_step(s, pos, line);
        if !st.fatal {
            lemma_scan_well_formed(s, st.next, st.line);
            let rest = scan_from(s, st.next, st.line);
            let all = opt_seq(st.token) + rest.tokens;
            assert(all.last() == rest.tokens.last());
            assert forall|i: int|
                0 <= i < all.len() && (#[trigger] all[i].kind == TokenType::Number || all[i].kind
                    == TokenType::String) implies all[i].literal is Some by {
                if i >= opt_seq(st.token).len() {
                    assert(all[i] == rest.tokens[i - opt_seq(st.token).len()]);
                }
            }
        }
    }
}

/// The tokens the lexer yields carry non-decreasing lines, none before the line
/// scanning started on, and every token but the end of input has a non-empty
/// lexeme.
pub proof fn lemma_scan_lines(s: Seq<char>, pos: int, line: nat)
    requires
        0 <= pos,
    ensures
        ({
            let t = scan_from(s, pos, line).tokens;
            &&& forall|i: int| 0 <= i < t.len() ==> (#[trigger] t[i]).line >= line
            &&& forall|i: int, j: int|
                0 <= i <= j < t.len() ==> (#[trigger] t[i]).line <= (#[trigger] t[j]).line
            &&& forall|i: int|
                0 <= i < t.len() && (#[trigger] t[i]).kind != TokenType::Eof ==> t[i].lexeme.len()
                    > 0
        }),
    decreases s.len() - pos,
{
    if pos < s.len() {
        lemma_lex_step_advances(s, pos, line);
        let st = lex_step(s, pos, line);
        if !st.fatal {
            lemma_scan_lines(s, st.next, st.line);
            let rest = scan_from(s, st.next, st.line).tokens;
            let head = opt_seq(st.token);
            let t = head + rest;
            assert(head.len() == 1 ==> head[0].line == st.line && head[0].lexeme.len() > 0);
            assert forall|i: int| 0 <= i < t.len() implies (#[trigger] t[i]).line >= line by {
                if i >= head.len() {
                    assert(t[i] == rest[i - head.len()]);
                }
            }
            assert forall|i: int, j: int|
                0 <= i <= j < t.len() implies (#[trigger] t[i]).line <= (#[trigger] t[j]).line by {
                if j >= head.len() {
                    assert(t[j] == rest[j - head.len()]);
                }
                if i >= head.len() {
                    assert(t[i] == rest[i - head.len()]);
                }
            }
            assert forall|i: int|
                0 <= i < t.len() && (#[trigger] t[i]).kind != TokenType::Eof implies t[i].lexeme.len()
                    > 0 by {
                if i >= head.len() {
                    assert(t[i] == rest[i - head.len()]);
                }
            }
        }
    }
}

#[via_fn]
proof fn scan_from_decreases(s: Seq<char>, pos: int, line: nat) {
    if 0 <= pos < s.len() {
        lemma_lex_step_advances(s, pos, line);
    }
}

/// Scanning from `pos` on line `line` to the end of input, or to the first fatal
/// problem.
pub open spec fn scan_from(s: Seq<char>, pos: int, line: nat) -> Scanned
    decreases s.len() - pos,
    via scan_from_decreases
{
    if pos < 0 || pos >= s.len() {
        Scanned { tokens: seq![eof_token(line)], diagnostics: Seq::empty(), fatal: false }
    } else {
        let st = lex_step(s, pos, line);
        if st.fatal {
            Scanned {
                tokens: seq![eof_token(st.line)],
                diagnostics: opt_seq(st.diagnostic),
                fatal: true,
            }
        } else {
            let rest = scan_from(s, st.next, st.line);
            Scanned {
                tokens: opt_seq(st.token) + rest.tokens,
                diagnostics: opt_seq(st.diagnostic) + rest.diagnostics,
                fatal: rest.fatal,
            }
        }
    }
}

/// What scanning a whole source yields.
pub open spec fn scan(s: Seq<char>) -> Scanned {
    scan_from(s, 0, 1)
}

pub open spec fn tokens_view(t: Seq<Token>) -> Seq<TokenView> {
    t.map_values(|x: Token| x@)
}

/// The lexer: a cursor over the source text.
pub struct Scanner {
    source: Vec<char>,
    tokens: Vec<Token>,
    start: usize,
    current: usize,
    line: usize,
    errors: Errors,
    halted: bool,
}

impl Scanner {
    pub closed spec fn source(&self) -> Seq<char> {
        self.source@
    }

    pub closed spec fn position(&self) -> int {
        self.current as int
    }

    pub closed spec fn line(&self) -> nat {
        self.line as nat
    }

    pub closed spec fn scanned(&self) -> Seq<TokenView> {
        tokens_view(self.tokens@)
    }

    pub closed spec fn reported(&self) -> Seq<DiagnosticView> {
        self.errors.log()
    }

    /// Whether the last scan stopped at an unterminated string.
    pub closed spec fn halted(&self) -> bool {
        self.halted
    }

    pub closed spec fn wf(&self) -> bool {
        &&& self.current <= self.source@.len()
        &&& self.line <= self.current + 1
        &&& self.line >= 1
        &&& self.source@.len() < usize::MAX
        &&& within_parse_limit(self.source@.len())
    }

    pub fn new(source: &str) -> (r: Scanner)
        requires
            within_parse_limit(source@.len()),
        ensures
            r.wf(),
            r.source() == source@,
            r.position() == 0,
            r.line() == 1,
            r.scanned() == Seq::<TokenView>::empty(),
            r.reported() == Seq::<DiagnosticView>::empty(),
            !r.halted(),
    {
        let r = Scanner {
            source: chars_of(source),
            tokens: Vec::new(),
            start: 0,
            current: 0,
            line: 1,
            errors: Errors::new(),
            halted: false,
        };
        assert(r.scanned() =~= Seq::<TokenView>::empty());
        r
    }

    /// The diagnostics reported so far.
    pub fn diagnostics(&self) -> (r: &Errors)
        ensures
            r.log() == self.reported(),
    {
        &self.errors
    }

    /// The diagnostics reported so far, taken out of the scanner.
    pub fn into_diagnostics(self) -> (r: Vec<Diagnostic>)
        ensures
            diagnostics_view(r@) == self.reported(),
    {
        self.errors.reported
    }

    /// Whether the last scan stopped at an unterminated string.
    pub fn had_fatal_error(&self) -> (r: bool)
        ensures
            r == self.halted(),
    {
        self.halted
    }

    /// Scans the rest of the source and appends the end-of-input token; hands back
    /// every token scanned so far.
    pub fn scan_tokens(&mut self) -> (r: Vec<Token>)
        requires
            old(self).wf(),
        ensures
            ({
                let sc = scan_from(old(self).source(), old(self).position(), old(self).line());
                &&& final(self).wf()
                &&& final(self).source() == old(self).source()
                &&& final(self).scanned() == old(self).scanned() + sc.tokens
                &&& final(self).reported() == old(self).reported() + sc.diagnostics
                &&& final(self).halted() == sc.fatal
                &&& tokens_view(r@) == final(self).scanned()
            }),
    {
        let ghost s = self.source@;
        let ghost goal = scan_from(s, self.current as int, self.line as nat);
        let ghost tok0 = self.scanned();
        let ghost log0 = self.reported();
        let mut fatal = false;
        assert(tok0 + goal.tokens =~= self.scanned() + goal.tokens);
        assert(log0 + goal.diagnostics =~= self.reported() + goal.diagnostics);
        while !fatal && !self.is_at_end()
            invariant
                self.wf(),
                self.source@ == s,
                !fatal ==> ({
                    let rest = scan_from(s, self.current as int, self.line as nat);
                    &&& tok0 + goal.tokens == self.scanned() + rest.tokens
                    &&& log0 + goal.diagnostics == self.reported() + rest.diagnostics
                    &&& goal.fatal == rest.fatal
                }),
                fatal ==> ({
                    &&& tok0 + goal.tokens == self.scanned() + seq![eof_token(self.line as nat)]
                    &&& log0 + goal.diagnostics == self.reported()
                    &&& goal.fatal
                }),
            decreases s.len() - self.current, if fatal {
                0int
            } else {
                1int
            },
        {
            let ghost before_tokens = self.scanned();
            let ghost before_log = self.reported();
            let ghost st = lex_step(s, self.current as int, self.line as nat);
            let ghost rest = scan_from(s, self.current as int, self.line as nat);
            proof {
                lemma_lex_step_advances(s, self.current as int, self.line as nat);
            }
            self.start = self.current;
            fatal = self.scan_token();
            proof {
                if fatal {
                    assert(self.scanned() =~= before_tokens);
                    assert(self.reported() =~= before_log + rest.diagnostics);
                } else {
                    let rest2 = scan_from(s, self.current as int, self.line as nat);
                    assert(rest.tokens =~= opt_seq(st.token) + rest2.tokens);
                    assert(before_tokens + rest.tokens =~= self.scanned() + rest2.tokens);
                    assert(before_log + rest.diagnostics =~= self.reported() + rest2.diagnostics);
                }
            }
        }
        proof {
            reveal_strlit("EOF");
            if !fatal {
                assert(scan_from(s, self.current as int, self.line as nat).tokens == seq![
                    eof_token(self.line as nat),
                ]);
                assert(self.reported() + Seq::<DiagnosticView>::empty() =~= self.reported());
            }
        }
        let eof_text = <String as StringExecFns>::from_str("EOF");
        assert(eof_text@ =~= seq!['E', 'O', 'F']);
        self.tokens.push(
            Token { kind: TokenType::Eof, literal: None, loc: Location { lexeme: eof_text, line: self.line } },
        );
        self.halted = fatal;
        assert(self.scanned() =~= tok0 + goal.tokens);
        let mut out: Vec<Token> = Vec::new();
        let mut i: usize = 0;
        while i < self.tokens.len()
            invariant
                i <= self.tokens@.len(),
                out@.len() == i,
                forall|j: int| 0 <= j < i ==> (#[trigger] out@[j])@ == self.tokens@[j]@,
            decreases self.tokens@.len() - i,
        {
            out.push(self.tokens[i].duplicate());
            i += 1;
        }
        assert(tokens_view(out@) =~= tokens_view(self.tokens@));
        out
    }

    fn is_at_end(&self) -> (r: bool)
        requires
            self.wf(),
        ensures
            r == (self.current >= self.source@.len()),
    {
        self.current >= self.source.len()
    }

    fn char_in_run(c: char, k: CharRun) -> (r: bool)
        ensures
            r == in_run(c, k),
    {
        match k {
            CharRun::Digits => '0' <= c && c <= '9',
            CharRun::Alphanumeric => ('a' <= c && c <= 'z') || ('A' <= c && c <= 'Z') || ('0'
                <= c && c <= '9'),
            CharRun::LineRest => c != '\n',
            CharRun::StringBody => c != '"',
        }
    }

    fn run_end(&self, i: usize, k: CharRun) -> (r: usize)
        requires
            i <= self.source@.len(),
        ensures
            r == run_end(self.source@, i as int, k),
            i <= r <= self.source@.len(),
    {
        let mut j = i;
        while j < self.source.len() && Self::char_in_run(self.source[j], k)
            invariant
                i <= j <= self.source@.len(),
                run_end(self.source@, i as int, k) == run_end(self.source@, j as int, k),
            decreases self.source@.len() - j,
        {
            j += 1;
        }
        j
    }

    fn advance(&mut self) -> (c: char)
        requires
            old(self).wf(),
            old(self).current < old(self).source@.len(),
        ensures
            c == old(self).source@[old(self).current as int],
            final(self).current == old(self).current + 1,
            final(self).source@ == old(self).source@,
            final(self).tokens == old(self).tokens,
            final(self).errors == old(self).errors,
            final(self).line == old(self).line,
            final(self).start == old(self).start,
    {
        let c = self.source[self.current];
        self.current += 1;
        c
    }

    /// Consumes the next character when it is `expected`.
    fn match_next(&mut self, expected: char) -> (r: bool)
        requires
            old(self).current <= old(self).source@.len(),
        ensures
            r == (old(self).current < old(self).source@.len() && old(self).source@[old(
                self,
            ).current as int] == expected),
            final(self).current == old(self).current + if r {
                1usize
            } else {
                0usize
            },
            final(self).source@ == old(self).source@,
            final(self).tokens == old(self).tokens,
            final(self).errors == old(self).errors,
            final(self).line == old(self).line,
            final(self).start == old(self).start,
    {
        if self.current >= self.source.len() {
            return false;
        }
        if self.source[self.current] != expected {
            return false;
        }
        self.current += 1;
        true
    }

    fn add_token(&mut self, kind: TokenType, literal: Option<Object>)
        requires
            old(self).start <= old(self).current <= old(self).source@.len(),
        ensures
            final(self).scanned() == old(self).scanned().push(
                TokenView {
                    kind,
                    literal: option_view(literal),
                    lexeme: old(self).source@.subrange(
                        old(self).start as int,
                        old(self).current as int,
                    ),
                    line: old(self).line as nat,
                },
            ),
            final(self).current == old(self).current,
            final(self).source@ == old(self).source@,
            final(self).errors == old(self).errors,
            final(self).line == old(self).line,
            final(self).start == old(self).start,
    {
        let text = text_of(slice_subrange(self.source.as_slice(), self.start, self.current));
        self.tokens.push(Token { kind, literal, loc: Location { lexeme: text, line: self.line } });
        assert(self.scanned() =~= old(self).scanned().push(
            TokenView {
                kind,
                literal: option_view(literal),
                lexeme: old(self).source@.subrange(old(self).start as int, old(self).current as int),
                line: old(self).line as nat,
            },
        ));
    }

    fn single_kind(c: char) -> (r: Option<TokenType>)
        ensures
            r == single_kind(c),
    {
        match c {
            '(' => Some(TokenType::LeftParen),
            ')' => Some(TokenType::RightParen),
            '{' => Some(TokenType::LeftBrace),
            '}' => Some(TokenType::RightBrace),
            ',' => Some(TokenType::Comma),
            '.' => Some(TokenType::Dot),
            '-' => Some(TokenType::Minus),
            '+' => Some(TokenType::Plus),
            ';' => Some(TokenType::Semicolon),
            '*' => Some(TokenType::Star),
            _ => None,
        }
    }

    fn pair_kinds(c: char) -> (r: Option<(TokenType, TokenType)>)
        ensures
            r == pair_kinds(c),
    {
        match c {
            '!' => Some((TokenType::Bang, TokenType::BangEqual)),
            '=' => Some((TokenType::Equal, TokenType::EqualEqual)),
            '<' => Some((TokenType::Less, TokenType::LessEqual)),
            '>' => Some((TokenType::Greater, TokenType::GreaterEqual)),
            _ => None,
        }
    }

    /// Scans one lexeme, starting at the current position; returns whether the
    /// problem met there ends the scan.
    fn scan_token(&mut self) -> (fatal: bool)
        requires
            old(self).wf(),
            old(self).current < old(self).source@.len(),
        ensures
            ({
                let st = lex_step(old(self).source@, old(self).current as int, old(self).line as nat);
                &&& final(self).wf()
                &&& final(self).source@ == old(self).source@
                &&& final(self).current == st.next
                &&& final(self).line == st.line
                &&& final(self).scanned() == old(self).scanned() + opt_seq(st.token)
                &&& final(self).reported() == old(self).reported() + opt_seq(st.diagnostic)
                &&& fatal == st.fatal
            }),
    {
        let ghost s = self.source@;
        let ghost pos = self.current as int;
        let ghost line0 = self.line as nat;
        let ghost st = lex_step(s, pos, line0);
        let ghost log0 = self.reported();
        proof {
            lemma_lex_step_advances(s, pos, line0);
        }
        self.start = self.current;
        let c = self.advance();
        if let Some(k) = Self::single_kind(c) {
            self.add_token(k, None);
        } else if let Some((one, two)) = Self::pair_kinds(c) {
            if self.match_next('=') {
                self.add_token(two, None);
            } else {
                self.add_token(one, None);
            }
        } else if c == '/' {
            if self.match_next('/') {
                let e = self.run_end(self.current, CharRun::LineRest);
                self.current = e;
                assert(self.scanned() =~= old(self).scanned() + opt_seq(st.token));
            } else {
                self.add_token(TokenType::Slash, None);
            }
        } else if c == ' ' || c == '\r' || c == '\t' {
            assert(self.scanned() =~= old(self).scanned() + opt_seq(st.token));
        } else if c == '\n' {
            self.line += 1;
            assert(self.scanned() =~= old(self).scanned() + opt_seq(st.token));
        } else if c == '"' {
            let fatal = self.string();
            return fatal;
        } else if '0' <= c && c <= '9' {
            self.number();
        } else if ('a' <= c && c <= 'z') || ('A' <= c && c <= 'Z') || c == '_' {
            self.identifier();
        } else {
            proof {
                reveal_strlit("Unexpected character: ");
            }
            let shown = text_of(slice_subrange(self.source.as_slice(), self.start, self.current));
            let message = <String as StringExecFns>::from_str("Unexpected character: ").concat(
                shown.as_str(),
            );
            assert(message@ =~= unexpected_message(c));
            self.errors.error(self.line, message.as_str());
            assert(self.scanned() =~= old(self).scanned() + opt_seq(st.token));
            return false;
        }
        assert(self.scanned() =~= old(self).scanned() + opt_seq(st.token));
        assert(self.reported() =~= log0 + opt_seq(st.diagnostic));
        false
    }

    fn string(&mut self) -> (fatal: bool)
        requires
            old(self).wf(),
            old(self).start + 1 == old(self).current,
            old(self).line <= old(self).start + 1,
            old(self).source@[old(self).start as int] == '"',
        ensures
            ({
                let st = lex_step(old(self).source@, old(self).start as int, old(self).line as nat);
                &&& final(self).wf()
                &&& final(self).source@ == old(self).source@
                &&& final(self).current == st.next
                &&& final(self).line == st.line
                &&& final(self).scanned() == old(self).scanned() + opt_seq(st.token)
                &&& final(self).reported() == old(self).reported() + opt_seq(st.diagnostic)
                &&& fatal == st.fatal
            }),
    {
        let ghost s = self.source@;
        let ghost pos = self.start as int;
        let ghost line0 = self.line as nat;
        let ghost st = lex_step(s, pos, line0);
        let ghost log0 = self.reported();
        let ghost tok0 = self.scanned();
        while self.current < self.source.len() && self.source[self.current] != '"'
            invariant
                self.source@ == s,
                s.len() < usize::MAX,
                pos + 1 <= self.current <= s.len(),
                self.start == pos,
                self.line == line0 + newlines(s, pos + 1, self.current as int),
                self.line <= line0 + (self.current - (pos + 1)),
                line0 <= pos + 1,
                run_end(s, pos + 1, CharRun::StringBody) == run_end(
                    s,
                    self.current as int,
                    CharRun::StringBody,
                ),
                self.reported() == log0,
                self.scanned() == tok0,
            decreases s.len() - self.current,
        {
            if self.source[self.current] == '\n' {
                self.line += 1;
            }
            self.current += 1;
        }
        if self.current >= self.source.len() {
            proof {
                reveal_strlit("unterminated string.");
            }
            self.errors.error(self.line, "unterminated string.");
            assert(self.scanned() =~= tok0 + opt_seq(st.token));
            assert(self.reported() =~= log0 + opt_seq(st.diagnostic));
            return true;
        }
        self.current += 1;
        let body = text_of(slice_subrange(self.source.as_slice(), self.start + 1, self.current - 1));
        self.add_token(TokenType::String, Some(Object::String(body)));
        assert(self.scanned() =~= tok0 + opt_seq(st.token));
        assert(self.reported() =~= log0 + opt_seq(st.diagnostic));
        false
    }

    fn number(&mut self)
        requires
            old(self).wf(),
            old(self).start + 1 == old(self).current,
            is_digit(old(self).source@[old(self).start as int]),
        ensures
            ({
                let st = lex_step(old(self).source@, old(self).start as int, old(self).line as nat);
                &&& final(self).wf()
                &&& final(self).source@ == old(self).source@
                &&& final(self).current == st.next
                &&& final(self).line == st.line
                &&& final(self).scanned() == old(self).scanned() + opt_seq(st.token)
                &&& final(self).reported() == old(self).reported()
            }),
    {
        let ghost s = self.source@;
        let ghost pos = self.start as int;
        assert(run_end(s, pos, CharRun::Digits) == run_end(s, pos + 1, CharRun::Digits));
        let d = self.run_end(self.current, CharRun::Digits);
        proof {
            lemma_run_contents(s, pos, CharRun::Digits);
        }
        self.current = d;
        if d + 1 < self.source.len() && self.source[d] == '.' && '0' <= self.source[d + 1]
            && self.source[d + 1] <= '9' {
            let e = self.run_end(d + 1, CharRun::Digits);
            proof {
                lemma_run_contents(s, d + 1, CharRun::Digits);
                lemma_run_end_bounds(s, d + 2, CharRun::Digits);
                assert(run_end(s, d + 1, CharRun::Digits) == run_end(s, d + 2, CharRun::Digits));
            }
            self.current = e;
        }
        let text = text_of(slice_subrange(self.source.as_slice(), self.start, self.current));
        proof {
            let t = text@;
            let k = d - pos;
            assert(t =~= s.subrange(pos, self.current as int));
            assert forall|i: int| 0 <= i < k implies is_digit(#[trigger] t[i]) by {
                assert(t[i] == s[pos + i]);
                assert(in_run(s[pos + i], CharRun::Digits));
            }
            if k < t.len() {
                assert forall|i: int| k < i < t.len() implies is_digit(#[trigger] t[i]) by {
                    assert(t[i] == s[pos + i]);
                    assert(in_run(s[pos + i], CharRun::Digits));
                }
                assert(t[k] == '.');
            }
            assert(numeral_split(t, k));
            assert(within_parse_limit(t.len()));
        }
        let n = parse_number(text.as_str());
        self.add_token(TokenType::Number, Some(Object::Number(n)));
        assert(self.scanned() =~= old(self).scanned() + opt_seq(
            lex_step(s, pos, old(self).line as nat).token,
        ));
    }

    fn identifier(&mut self)
        requires
            old(self).wf(),
            old(self).start + 1 == old(self).current,
            is_alpha(old(self).source@[old(self).start as int]),
            !is_digit(old(self).source@[old(self).start as int]),
        ensures
            ({
                let st = lex_step(old(self).source@, old(self).start as int, old(self).line as nat);
                &&& final(self).wf()
                &&& final(self).source@ == old(self).source@
                &&& final(self).current == st.next
                &&& final(self).line == st.line
                &&& final(self).scanned() == old(self).scanned() + opt_seq(st.token)
                &&& final(self).reported() == old(self).reported()
            }),
    {
        let ghost s = self.source@;
        let ghost pos = self.start as int;
        let e = self.run_end(self.current, CharRun::Alphanumeric);
        self.current = e;
        match self.keyword(self.start, e) {
            Some(k) => self.add_token(k, None),
            None => {
                let w = text_of(slice_subrange(self.source.as_slice(), self.start, e));
                self.add_token(TokenType::Identifier, Some(Object::String(w)));
            },
        }
        assert(self.scanned() =~= old(self).scanned() + opt_seq(
            lex_step(s, pos, old(self).line as nat).token,
        ));
    }

    /// Whether `source[a..b]` spells `w`.
    fn spells(&self, a: usize, b: usize, w: &[char]) -> (r: bool)
        requires
            a <= b <= self.source@.len(),
        ensures
            r == (self.source@.subrange(a as int, b as int) == w@),
    {
        if b - a != w.len() {
            return false;
        }
        let mut i: usize = 0;
        while i < w.len()
            invariant
                a <= b <= self.source@.len(),
                b - a == w@.len(),
                i <= w@.len(),
                forall|j: int| 0 <= j < i ==> self.source@[a + j] == w@[j],
            decreases w@.len() - i,
        {
            if self.source[a + i] != w[i] {
                assert(self.source@.subrange(a as int, b as int)[i as int] != w@[i as int]);
                return false;
            }
            i += 1;
        }
        assert(self.source@.subrange(a as int, b as int) =~= w@);
        true
    }

    /// The reserved word that `source[a..b]` spells, if any. The table is a chain of
    /// comparisons rather than a `HashMap` keyed by `String`: of such a map Verus
    /// proves next to nothing, while each comparison here is checked against
    /// `keyword_of`.
    fn keyword(&self, a: usize, b: usize) -> (r: Option<TokenType>)
        requires
            a <= b <= self.source@.len(),
        ensures
            r == keyword_of(self.source@.subrange(a as int, b as int)),
    {
        if self.spells(a, b, &['a', 'n', 'd']) {
            Some(TokenType::And)
        } else if self.spells(a, b, &['c', 'l', 'a', 's', 's']) {
            Some(TokenType::Class)
        } else if self.spells(a, b, &['e', 'l', 's', 'e']) {
            Some(TokenType::Else)
        } else if self.spells(a, b, &['f', 'a', 'l', 's', 'e']) {
            Some(TokenType::False)
        } else if self.spells(a, b, &['f', 'o', 'r']) {
            Some(TokenType::For)
        } else if self.spells(a, b, &['f', 'u', 'n']) {
            Some(TokenType::Fun)
        } else if self.spells(a, b, &['i', 'f']) {
            Some(TokenType::If)
        } else if self.spells(a, b, &['n', 'i', 'l']) {
            Some(TokenType::Nil)
        } else if self.spells(a, b, &['o', 'r']) {
            Some(TokenType::Or)
        } else if self.spells(a, b, &['p', 'r', 'i', 'n', 't']) {
            Some(TokenType::Print)
        } else if self.spells(a, b, &['r', 'e', 't', 'u', 'r', 'n']) {
            Some(TokenType::Return)
        } else if self.spells(a, b, &['s', 'u', 'p', 'e', 'r']) {
            Some(TokenType::Super)
        } else if self.spells(a, b, &['t', 'h', 'i', 's']) {
            Some(TokenType::This)
        } else if self.spells(a, b, &['t', 'r', 'u', 'e']) {
            Some(TokenType::True)
        } else if self.spells(a, b, &['v', 'a', 'r']) {
            Some(TokenType::Var)
        } else if self.spells(a, b, &['w', 'h', 'i', 'l', 'e']) {
            Some(TokenType::While)
        } else {
            None
        }
    }
}

} // verus!
