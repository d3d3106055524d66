//! The lexer: characters to tokens.
//!
//! Two stages take turns over the input. The preprocessor ([`scan`]) drops
//! comments and carriage returns and turns every other whitespace character
//! into a space; the tokenizer ([`lex_step`]) builds the tokens from what the
//! preprocessor hands on. The position tracker ([`advance`]) follows every
//! character read, inside comments too: lines count from 1, columns from 0.
//! [`lex`] says which tokens a text has, and [`run`] computes them.

use crate::error::{CodePos, Error, ErrorType, ErrorTypeView, ErrorView};
use crate::source::OwningChars;
use vstd::prelude::*;

verus! {

/// What a token is.
#[derive(Debug, PartialEq, Eq)]
pub enum TokenType {
    /// A quoted literal, with its escapes resolved.
    StringLiteral(String),
    /// A bare word.
    RawLiteral(String),
    OpenBrace,
    CloseBrace,
    OpenParen,
    CloseParen,
    Semicolon,
}

/// The mathematical model of a [`TokenType`].
pub enum TokenTypeView {
    StringLiteral(Seq<char>),
    RawLiteral(Seq<char>),
    OpenBrace,
    CloseBrace,
    OpenParen,
    CloseParen,
    Semicolon,
}

impl View for TokenType {
    type V = TokenTypeView;

    open spec fn view(&self) -> TokenTypeView {
        match *self {
            TokenType::StringLiteral(s) => TokenTypeView::StringLiteral(s@),
            TokenType::RawLiteral(s) => TokenTypeView::RawLiteral(s@),
            TokenType::OpenBrace => TokenTypeView::OpenBrace,
            TokenType::CloseBrace => TokenTypeView::CloseBrace,
            TokenType::OpenParen => TokenTypeView::OpenParen,
            TokenType::CloseParen => TokenTypeView::CloseParen,
            TokenType::Semicolon => TokenTypeView::Semicolon,
        }
    }
}

impl Clone for TokenType {
    fn clone(&self) -> (r: Self)
        ensures
            r == *self,
    {
        match self {
            TokenType::StringLiteral(s) => TokenType::StringLiteral(s.clone()),
            TokenType::RawLiteral(s) => TokenType::RawLiteral(s.clone()),
            TokenType::OpenBrace => TokenType::OpenBrace,
            TokenType::CloseBrace => TokenType::CloseBrace,
            TokenType::OpenParen => TokenType::OpenParen,
            TokenType::CloseParen => TokenType::CloseParen,
            TokenType::Semicolon => TokenType::Semicolon,
        }
    }
}

/// A token and the position at which it starts: the position of the tracker
/// as of the token's first character.
#[derive(Debug, PartialEq, Eq)]
pub struct Token {
    pub token_type: TokenType,
    pub line: u32,
    pub col: u16,
}

/// The mathematical model of a [`Token`].
pub struct TokenView {
    pub token_type: TokenTypeView,
    pub line: u32,
    pub col: u16,
}

impl View for Token {
    type V = TokenView;

    open spec fn view(&self) -> TokenView {
        TokenView { token_type: self.token_type@, line: self.line, col: self.col }
    }
}

impl Clone for Token {
    fn clone(&self) -> (r: Self)
        ensures
            r == *self,
    {
        Token { token_type: self.token_type.clone(), line: self.line, col: self.col }
    }
}

impl Token {
    pub fn new(line: u32, col: u16, ty: TokenType) -> (t: Token)
        ensures
            t == (Token { token_type: ty, line: line, col: col }),
    {
        Token { line: line, col: col, token_type: ty }
    }
}

/// The models of the tokens of `v`, in order.
pub open spec fn tokens_view(v: Seq<Token>) -> Seq<TokenView> {
    v.map_values(|t: Token| t@)
}


/// The models of a lexer result: of the tokens, or of the error.
pub open spec fn lex_result_view(r: Result<Vec<Token>, Error>) -> Result<Seq<TokenView>, ErrorView> {
    match r {
        Ok(v) => Ok(tokens_view(v@)),
        Err(e) => Err(e@),
    }
}

// ---------------------------------------------------------------------------
// Position tracking
// ---------------------------------------------------------------------------

/// The line after `line`. The counter wraps around at the limit of `u32`.
pub open spec fn next_line(line: u32) -> u32 {
    if line == u32::MAX {
        0u32
    } else {
        (line + 1) as u32
    }
}

/// The column after `col`. The counter wraps around at the limit of `u16`.
pub open spec fn next_col(col: u16) -> u16 {
    if col == u16::MAX {
        0u16
    } else {
        (col + 1) as u16
    }
}

/// The position after the character `c` was read at `(line, col)`: a newline
/// begins the next line at column 0, a carriage return leaves the position
/// where it is, every other character is one more column.
pub open spec fn advance(line: u32, col: u16, c: char) -> (u32, u16) {
    if c == '\n' {
        (next_line(line), 0u16)
    } else if c == '\r' {
        (line, col)
    } else {
        (line, next_col(col))
    }
}

/// Moves the position `(line, col)` over the character `c`.
pub fn track(line: u32, col: u16, c: char) -> (r: (u32, u16))
    ensures
        r == advance(line, col, c),
{
    if c == '\n' {
        (line.wrapping_add(1), 0)
    } else if c == '\r' {
        (line, col)
    } else {
        (line, col.wrapping_add(1))
    }
}

// ---------------------------------------------------------------------------
// The preprocessor: comments and whitespace
// ---------------------------------------------------------------------------

/// Whether `char::is_whitespace` holds of `c`: whether `c` has the Unicode
/// property `White_Space`.
pub uninterp spec fn is_whitespace(c: char) -> bool;

/// Calls `char::is_whitespace`. Trusted: the result is the Unicode property
/// that [`is_whitespace`] names, a function of the character alone.
#[verifier::external_body]
fn char_is_whitespace(c: char) -> (r: bool)
    ensures
        r == is_whitespace(c),
{
    c.is_whitespace()
}

/// Where the preprocessor is.
#[derive(Debug, Clone, Copy)]
pub enum PreProcState {
    /// Outside any comment.
    Default,
    /// Inside a `#` or `//` comment, which runs to the end of the line.
    LineComment,
    /// Inside a `/* */` comment, at the given nesting depth.
    MultiComment(usize),
}

/// What the preprocessor does with one character.
#[derive(Debug, Clone, Copy)]
pub enum PreProcStep {
    /// Hands the given character to the tokenizer.
    Emit(char),
    /// Drops the character and goes on in the given state.
    Continue(PreProcState),
    /// Drops the character and the one after it, which together close the
    /// outermost `/* */` comment, and goes on outside any comment.
    CloseComment,
}

/// What the preprocessor does in state `ps` with the character `c`, when
/// `ahead` is the character after it (if any) and `blank` says whether `c`
/// is whitespace.
///
/// Outside comments a newline and every other whitespace character become a
/// single space, a carriage return is dropped, `#` and `//` open a line
/// comment and `/*` opens a block comment. A line comment ends with its
/// newline, which becomes a space. In a block comment `/*` goes one level
/// deeper and `*/` one level back; a delimiter is recognised by its first
/// character and the one ahead, and only the `*/` that closes the outermost
/// level takes both characters.
pub open spec fn preproc_step_spec(
    ps: PreProcState,
    c: char,
    ahead: Option<char>,
    blank: bool,
) -> PreProcStep {
    match ps {
        PreProcState::Default => {
            if c == '\n' {
                PreProcStep::Emit(' ')
            } else if c == '\r' {
                PreProcStep::Continue(PreProcState::Default)
            } else if c == '/' {
                if ahead == Some('/') {
                    PreProcStep::Continue(PreProcState::LineComment)
                } else if ahead == Some('*') {
                    PreProcStep::Continue(PreProcState::MultiComment(1))
                } else {
                    PreProcStep::Emit('/')
                }
            } else if c == '#' {
                PreProcStep::Continue(PreProcState::LineComment)
            } else if blank {
                PreProcStep::Emit(' ')
            } else {
                PreProcStep::Emit(c)
            }
        },
        PreProcState::LineComment => {
            if c == '\n' {
                PreProcStep::Emit(' ')
            } else {
                PreProcStep::Continue(PreProcState::LineComment)
            }
        },
        PreProcState::MultiComment(level) => {
            if c == '*' && ahead == Some('/') {
                if level <= 1 {
                    PreProcStep::CloseComment
                } else {
                    PreProcStep::Continue(PreProcState::MultiComment((level - 1) as usize))
                }
            } else if c == '/' && ahead == Some('*') {
                PreProcStep::Continue(PreProcState::MultiComment((level + 1) as usize))
            } else {
                PreProcStep::Continue(PreProcState::MultiComment(level))
            }
        },
    }
}

/// One step of the preprocessor: see [`preproc_step_spec`]. The nesting
/// depth must leave room for one more level.
pub fn preproc_step(ps: PreProcState, c: char, ahead: Option<char>, blank: bool) -> (r:
    PreProcStep)
    requires
        ps matches PreProcState::MultiComment(level) ==> level < usize::MAX,
    ensures
        r == preproc_step_spec(ps, c, ahead, blank),
{
    let ahead_slash = match ahead {
        Some(a) => a == '/',
        None => false,
    };
    let ahead_star = match ahead {
        Some(a) => a == '*',
        None => false,
    };
    match ps {
        PreProcState::Default => {
            if c == '\n' {
                PreProcStep::Emit(' ')
            } else if c == '\r' {
                PreProcStep::Continue(PreProcState::Default)
            } else if c == '/' {
                if ahead_slash {
                    PreProcStep::Continue(PreProcState::LineComment)
                } else if ahead_star {
                    PreProcStep::Continue(PreProcState::MultiComment(1))
                } else {
                    PreProcStep::Emit('/')
                }
            } else if c == '#' {
                PreProcStep::Continue(PreProcState::LineComment)
            } else if blank {
                PreProcStep::Emit(' ')
            } else {
                PreProcStep::Emit(c)
            }
        },
        PreProcState::LineComment => {
            if c == '\n' {
                PreProcStep::Emit(' ')
            } else {
                PreProcStep::Continue(PreProcState::LineComment)
            }
        },
        PreProcState::MultiComment(level) => {
            if c == '*' && ahead_slash {
                if level <= 1 {
                    PreProcStep::CloseComment
                } else {
                    PreProcStep::Continue(PreProcState::MultiComment(level - 1))
                }
            } else if c == '/' && ahead_star {
                PreProcStep::Continue(PreProcState::MultiComment(level + 1))
            } else {
                PreProcStep::Continue(PreProcState::MultiComment(level))
            }
        },
    }
}

/// The character of `s` at index `i`, if there is one.
pub open spec fn peek(s: Seq<char>, i: int) -> Option<char> {
    if 0 <= i < s.len() {
        Some(s[i])
    } else {
        None
    }
}

/// The outcome of one run of the preprocessor.
pub struct Scan {
    /// The character for the tokenizer, or `None` at the end of the input.
    pub result: Option<char>,
    /// The input that was not read.
    pub rest: Seq<char>,
    /// The position after the last character read.
    pub line: u32,
    pub col: u16,
}

/// Runs the preprocessor on `s` from state `ps` and position `(line, col)`
/// up to the first character that it hands to the tokenizer.
pub open spec fn scan(s: Seq<char>, ps: PreProcState, line: u32, col: u16) -> Scan
    decreases s.len(),
{
    if s.len() == 0 {
        Scan { result: None, rest: s, line: line, col: col }
    } else {
        let here = advance(line, col, s[0]);
        match preproc_step_spec(ps, s[0], peek(s, 1), is_whitespace(s[0])) {
            PreProcStep::Emit(out) => Scan {
                result: Some(out),
                rest: s.skip(1),
                line: here.0,
                col: here.1,
            },
            PreProcStep::Continue(ps2) => scan(s.skip(1), ps2, here.0, here.1),
            PreProcStep::CloseComment => {
                let there = advance(here.0, here.1, s[1]);
                scan(s.skip(1).skip(1), PreProcState::Default, there.0, there.1)
            },
        }
    }
}

/// The preprocessor reads at least one character for each that it hands on,
/// and never more than there are.
pub proof fn lemma_scan_shrinks(s: Seq<char>, ps: PreProcState, line: u32, col: u16)
    ensures
        scan(s, ps, line, col).rest.len() <= s.len(),
        scan(s, ps, line, col).result is Some ==> scan(s, ps, line, col).rest.len() < s.len(),
    decreases s.len(),
{
    if s.len() > 0 {
        let here = advance(line, col, s[0]);
        match preproc_step_spec(ps, s[0], peek(s, 1), is_whitespace(s[0])) {
            PreProcStep::Emit(out) => {},
            PreProcStep::Continue(ps2) => {
                lemma_scan_shrinks(s.skip(1), ps2, here.0, here.1);
            },
            PreProcStep::CloseComment => {
                let there = advance(here.0, here.1, s[1]);
                lemma_scan_shrinks(s.skip(1).skip(1), PreProcState::Default, there.0, there.1);
            },
        }
    }
}


// ---------------------------------------------------------------------------
// The tokenizer
// ---------------------------------------------------------------------------

/// What the tokenizer is building.
#[derive(Debug, PartialEq, Eq, Clone, Copy, Structural)]
pub enum LexerMode {
    /// No token.
    Idle,
    /// A quoted literal.
    Quoted,
    /// A bare word.
    Raw,
}

/// What the tokenizer has made of the characters it was given.
pub struct Progress {
    pub mode: LexerMode,
    /// Inside a quoted literal: the last character was an unescaped backslash.
    pub escaped: bool,
    /// The text of the literal being built.
    pub text: Seq<char>,
    /// Where the literal being built starts.
    pub start_line: u32,
    pub start_col: u16,
    /// The finished tokens.
    pub tokens: Seq<TokenView>,
}

/// The tokenizer before the first character.
pub open spec fn initial_progress() -> Progress {
    Progress {
        mode: LexerMode::Idle,
        escaped: false,
        text: Seq::empty(),
        start_line: 1,
        start_col: 0,
        tokens: Seq::empty(),
    }
}

/// Finishes the literal being built, if there is one.
pub open spec fn end_token_spec(p: Progress) -> Progress {
    match p.mode {
        LexerMode::Idle => p,
        LexerMode::Quoted => Progress {
            mode: LexerMode::Idle,
            tokens: p.tokens.push(
                TokenView {
                    token_type: TokenTypeView::StringLiteral(p.text),
                    line: p.start_line,
                    col: p.start_col,
                },
            ),
            ..p
        },
        LexerMode::Raw => Progress {
            mode: LexerMode::Idle,
            tokens: p.tokens.push(
                TokenView {
                    token_type: TokenTypeView::RawLiteral(p.text),
                    line: p.start_line,
                    col: p.start_col,
                },
            ),
            ..p
        },
    }
}

/// Finishes the literal being built and begins an empty one of kind `mode`
/// at `(line, col)`.
pub open spec fn start_token_spec(p: Progress, mode: LexerMode, line: u32, col: u16) -> Progress {
    Progress {
        mode: mode,
        text: Seq::empty(),
        start_line: line,
        start_col: col,
        ..end_token_spec(p)
    }
}

/// Finishes the literal being built and adds the token `ty` at `(line, col)`.
pub open spec fn token_spec(p: Progress, ty: TokenTypeView, line: u32, col: u16) -> Progress {
    Progress {
        tokens: end_token_spec(p).tokens.push(TokenView { token_type: ty, line: line, col: col }),
        ..end_token_spec(p)
    }
}

/// The structural token that `c` stands for, if it stands for one.
pub open spec fn structural(c: char) -> Option<TokenTypeView> {
    if c == '(' {
        Some(TokenTypeView::OpenParen)
    } else if c == ')' {
        Some(TokenTypeView::CloseParen)
    } else if c == '{' {
        Some(TokenTypeView::OpenBrace)
    } else if c == '}' {
        Some(TokenTypeView::CloseBrace)
    } else if c == ';' {
        Some(TokenTypeView::Semicolon)
    } else {
        None
    }
}

/// The character that a backslash followed by `c` stands for in a quoted
/// literal: `\n` is a newline, and every other character stands for itself,
/// so that `\\` is a backslash and `\"` a quote.
pub open spec fn unescape(c: char) -> char {
    if c == 'n' {
        '\n'
    } else {
        c
    }
}

/// One step of the tokenizer: what becomes of `p` when the preprocessor
/// hands on the character `c`, read at `(line, col)`.
pub open spec fn lex_step(p: Progress, c: char, line: u32, col: u16) -> Progress {
    match p.mode {
        LexerMode::Quoted => {
            if p.escaped {
                Progress { text: p.text.push(unescape(c)), escaped: false, ..p }
            } else if c == '"' {
                end_token_spec(p)
            } else if c == '\\' {
                Progress { escaped: true, ..p }
            } else {
                Progress { text: p.text.push(c), ..p }
            }
        },
        LexerMode::Raw => {
            match structural(c) {
                Some(ty) => token_spec(p, ty, line, col),
                None => {
                    if c == ' ' {
                        end_token_spec(p)
                    } else {
                        Progress { text: p.text.push(c), ..p }
                    }
                },
            }
        },
        LexerMode::Idle => {
            match structural(c) {
                Some(ty) => token_spec(p, ty, line, col),
                None => {
                    if c == ' ' {
                        p
                    } else if c == '"' {
                        start_token_spec(p, LexerMode::Quoted, line, col)
                    } else {
                        Progress {
                            text: Seq::<char>::empty().push(c),
                            ..start_token_spec(p, LexerMode::Raw, line, col)
                        }
                    }
                },
            }
        },
    }
}

/// The tokenizer and the position at the end of the input.
pub struct LexEnd {
    pub progress: Progress,
    pub line: u32,
    pub col: u16,
}

/// Runs preprocessor and tokenizer in turn over all of `s`, from the position
/// `(line, col)` and the tokenizer state `p`.
pub open spec fn lex_run(s: Seq<char>, line: u32, col: u16, p: Progress) -> LexEnd
    decreases s.len(),
{
    let sc = scan(s, PreProcState::Default, line, col);
    match sc.result {
        Some(c) => {
            proof {
                lemma_scan_shrinks(s, PreProcState::Default, line, col);
            }
            lex_run(sc.rest, sc.line, sc.col, lex_step(p, c, sc.line, sc.col))
        },
        None => LexEnd { progress: p, line: sc.line, col: sc.col },
    }
}

/// Whether the text `s` ends inside a quoted literal.
pub open spec fn ends_in_quote(s: Seq<char>) -> bool {
    lex_run(s, 1, 0, initial_progress()).progress.mode == LexerMode::Quoted
}

/// The tokens of the text `s`. The one failure is a text that ends inside a
/// quoted literal; the error then carries the position of the end of input.
pub open spec fn lex(s: Seq<char>) -> Result<Seq<TokenView>, ErrorView> {
    let end = lex_run(s, 1, 0, initial_progress());
    if end.progress.mode == LexerMode::Quoted {
        Err(
            ErrorView {
                error_type: ErrorTypeView::UnexpectedEOF,
                line: end.line,
                col: end.col,
                expected: None,
            },
        )
    } else {
        Ok(end_token_spec(end.progress).tokens)
    }
}

/// Lexing succeeds on every text but those that end inside a quoted literal,
/// and on those it fails with `UnexpectedEOF`.
pub proof fn lemma_lex_fails_only_in_quote(s: Seq<char>)
    ensures
        lex(s) is Ok <==> !ends_in_quote(s),
        lex(s) matches Err(e) ==> e.error_type == ErrorTypeView::UnexpectedEOF,
{
}


/// Whether the quote character occurs nowhere in `s`.
pub open spec fn quote_free(s: Seq<char>) -> bool {
    forall|i: int| 0 <= i < s.len() ==> s[i] != '"'
}

/// From a text without quote characters the preprocessor hands on no quote
/// character, and what it leaves unread is without them too.
pub proof fn lemma_scan_quote_free(s: Seq<char>, ps: PreProcState, line: u32, col: u16)
    requires
        quote_free(s),
    ensures
        scan(s, ps, line, col).result != Some('"'),
        quote_free(scan(s, ps, line, col).rest),
    decreases s.len(),
{
    if s.len() > 0 {
        let here = advance(line, col, s[0]);
        assert(quote_free(s.skip(1)));
        match preproc_step_spec(ps, s[0], peek(s, 1), is_whitespace(s[0])) {
            PreProcStep::Emit(out) => {},
            PreProcStep::Continue(ps2) => {
                lemma_scan_quote_free(s.skip(1), ps2, here.0, here.1);
            },
            PreProcStep::CloseComment => {
                let there = advance(here.0, here.1, s[1]);
                assert(quote_free(s.skip(1).skip(1)));
                lemma_scan_quote_free(s.skip(1).skip(1), PreProcState::Default, there.0, there.1);
            },
        }
    }
}

/// On a text without quote characters the tokenizer never begins a quoted
/// literal.
pub proof fn lemma_lex_run_quote_free(s: Seq<char>, line: u32, col: u16, p: Progress)
    requires
        quote_free(s),
        p.mode != LexerMode::Quoted,
    ensures
        lex_run(s, line, col, p).progress.mode != LexerMode::Quoted,
    decreases s.len(),
{
    let sc = scan(s, PreProcState::Default, line, col);
    lemma_scan_quote_free(s, PreProcState::Default, line, col);
    lemma_scan_shrinks(s, PreProcState::Default, line, col);
    if let Some(c) = sc.result {
        lemma_lex_run_quote_free(sc.rest, sc.line, sc.col, lex_step(p, c, sc.line, sc.col));
    }
}

/// Lexing succeeds on every text in which no quote character occurs.
pub proof fn lemma_lex_succeeds_without_quotes(s: Seq<char>)
    requires
        quote_free(s),
    ensures
        lex(s) is Ok,
{
    lemma_lex_run_quote_free(s, 1, 0, initial_progress());
}

// ---------------------------------------------------------------------------
// The lexer proper
// ---------------------------------------------------------------------------

/// Calls `String::push`. Trusted: the character is appended to the end of the
/// string.
#[verifier::external_body]
fn push_char(s: &mut String, c: char)
    ensures
        final(s)@ == old(s)@.push(c),
{
    s.push(c);
}

struct LexerState {
    /// The position after the last character read.
    line: u32,
    col: u16,
    input: OwningChars,
    mode: LexerMode,
    escaped: bool,
    /// The text of the literal being built.
    tmp: String,
    tokens: Vec<Token>,
    /// A character taken from `input` to look at, and not read yet.
    force_next: Option<char>,
    /// Where the literal being built starts.
    start_line: u32,
    start_col: u16,
}

impl LexerState {
    /// The characters that are still to be read.
    spec fn pending(&self) -> Seq<char> {
        match self.force_next {
            Some(c) => seq![c] + self.input@,
            None => self.input@,
        }
    }

    /// What the tokenizer has made of the characters read.
    spec fn progress(&self) -> Progress {
        Progress {
            mode: self.mode,
            escaped: self.escaped,
            text: self.tmp@,
            start_line: self.start_line,
            start_col: self.start_col,
            tokens: tokens_view(self.tokens@),
        }
    }

    /// No more characters are pending than a `usize` can count, so that the
    /// depth of a comment, which is at most the number of characters read,
    /// fits in one too.
    spec fn wf(&self) -> bool {
        self.pending().len() <= usize::MAX
    }

    /// The position after the last character read.
    pub closed spec fn position(&self) -> (u32, u16) {
        (self.line, self.col)
    }
}

impl CodePos for LexerState {
    fn location(&self) -> (r: (u32, u16))
        ensures
            r == self.position(),
    {
        (self.line, self.col)
    }
}

proof fn lemma_tokens_view_push(v: Seq<Token>, t: Token)
    ensures
        tokens_view(v.push(t)) == tokens_view(v).push(t@),
{
    assert(tokens_view(v.push(t)) =~= tokens_view(v).push(t@));
}

/// Finishes the literal being built, if there is one, and adds it to the
/// tokens.
fn end_token(state: &mut LexerState)
    ensures
        final(state).progress() == end_token_spec(old(state).progress()),
        final(state).pending() == old(state).pending(),
        final(state).line == old(state).line,
        final(state).col == old(state).col,
{
    match state.mode {
        LexerMode::Idle => {},
        LexerMode::Quoted => {
            let t = Token::new(
                state.start_line,
                state.start_col,
                TokenType::StringLiteral(state.tmp.clone()),
            );
            proof {
                lemma_tokens_view_push(state.tokens@, t);
            }
            state.mode = LexerMode::Idle;
            state.tokens.push(t);
        },
        LexerMode::Raw => {
            let t = Token::new(
                state.start_line,
                state.start_col,
                TokenType::RawLiteral(state.tmp.clone()),
            );
            proof {
                lemma_tokens_view_push(state.tokens@, t);
            }
            state.mode = LexerMode::Idle;
            state.tokens.push(t);
        },
    }
}

/// Begins a literal of kind `mode` at the current position.
fn start_token(state: &mut LexerState, mode: LexerMode)
    ensures
        final(state).progress() == start_token_spec(
            old(state).progress(),
            mode,
            old(state).line,
            old(state).col,
        ),
        final(state).pending() == old(state).pending(),
        final(state).line == old(state).line,
        final(state).col == old(state).col,
{
    if state.mode != LexerMode::Idle {
        end_token(state);
    }
    state.tmp = String::new();
    state.mode = mode;
    state.start_line = state.line;
    state.start_col = state.col;
}

/// Adds the token `t` at the current position, after the literal being
/// built, if there is one.
fn token(state: &mut LexerState, t: TokenType)
    ensures
        final(state).progress() == token_spec(
            old(state).progress(),
            t@,
            old(state).line,
            old(state).col,
        ),
        final(state).pending() == old(state).pending(),
        final(state).line == old(state).line,
        final(state).col == old(state).col,
{
    end_token(state);
    let tok = Token::new(state.line, state.col, t);
    proof {
        lemma_tokens_view_push(state.tokens@, tok);
    }
    state.tokens.push(tok);
}

/// The error `error_type` at the current position.
fn fail<T>(state: &LexerState, error_type: ErrorType) -> (r: Result<T, Error>)
    ensures
        r matches Err(e) && e@ == (ErrorView {
            error_type: error_type@,
            line: state.line,
            col: state.col,
            expected: None,
        }),
{
    Err(Error::from_state(state, error_type, None))
}

/// Reads the next character.
fn next_char(state: &mut LexerState) -> (r: Option<char>)
    ensures
        r == peek(old(state).pending(), 0),
        r is Some ==> final(state).pending() == old(state).pending().skip(1),
        r is None ==> final(state).pending() == old(state).pending(),
        final(state).progress() == old(state).progress(),
        final(state).line == old(state).line,
        final(state).col == old(state).col,
{
    match state.force_next {
        Some(c) => {
            state.force_next = None;
            assert(final(state).pending() =~= old(state).pending().skip(1));
            Some(c)
        },
        None => state.input.next(),
    }
}

/// Looks at the next character without reading it.
fn lookahead(state: &mut LexerState) -> (r: Option<char>)
    ensures
        r == peek(old(state).pending(), 0),
        final(state).pending() == old(state).pending(),
        final(state).progress() == old(state).progress(),
        final(state).line == old(state).line,
        final(state).col == old(state).col,
{
    match state.force_next {
        Some(c) => Some(c),
        None => {
            let c = state.input.next();
            state.force_next = c;
            assert(final(state).pending() =~= old(state).pending());
            c
        },
    }
}

/// Runs the preprocessor: reads up to and including the next character that
/// the tokenizer is to see, and returns that character, or `None` at the end
/// of the input. Leaves the position after the last character read.
fn next(state: &mut LexerState) -> (r: Option<char>)
    requires
        old(state).wf(),
    ensures
        final(state).wf(),
        scan(old(state).pending(), PreProcState::Default, old(state).line, old(state).col) == (Scan {
            result: r,
            rest: final(state).pending(),
            line: final(state).line,
            col: final(state).col,
        }),
        final(state).progress() == old(state).progress(),
{
    let ghost text = state.pending();
    let ghost goal = scan(text, PreProcState::Default, state.line, state.col);
    let ghost progress = state.progress();
    let mut line = state.line;
    let mut col = state.col;
    let mut result: Option<char> = None;
    let mut ps = PreProcState::Default;
    loop
        invariant_except_break
            result is None,
            goal == scan(state.pending(), ps, line, col),
        invariant
            text.len() <= usize::MAX,
            state.pending().len() <= text.len(),
            state.progress() == progress,
            ps matches PreProcState::MultiComment(level) ==> level + state.pending().len()
                <= text.len(),
        ensures
            goal == (Scan { result: result, rest: state.pending(), line: line, col: col }),
        decreases state.pending().len(),
    {
        let read = next_char(state);
        if read.is_none() {
            break ;
        }
        let c = read.unwrap();
        let ahead = lookahead(state);
        let blank = char_is_whitespace(c);
        let here = track(line, col, c);
        line = here.0;
        col = here.1;
        match preproc_step(ps, c, ahead, blank) {
            PreProcStep::Emit(out) => {
                result = Some(out);
                break ;
            },
            PreProcStep::Continue(ps2) => {
                ps = ps2;
            },
            PreProcStep::CloseComment => {
                let slash = next_char(state);
                if let Some(c2) = slash {
                    let there = track(line, col, c2);
                    line = there.0;
                    col = there.1;
                }
                ps = PreProcState::Default;
            },
        }
    }
    state.line = line;
    state.col = col;
    result
}

/// Turns the characters of `input` into tokens.
///
/// Whitespace and comments separate tokens and are dropped. The one failure
/// is an input that ends inside a quoted literal: `UnexpectedEOF`, at the
/// position of the end of input.
pub fn run(input: OwningChars) -> (r: Result<Vec<Token>, Error>)
    ensures
        lex_result_view(r) == lex(input@),
        r is Err <==> ends_in_quote(input@),
{
    let ghost text = input@;
    proof {
        input.lemma_len_bounded();
    }
    let mut state = LexerState {
        line: 1,
        col: 0,
        input: input,
        mode: LexerMode::Idle,
        escaped: false,
        tmp: String::new(),
        tokens: Vec::new(),
        force_next: None,
        start_line: 1,
        start_col: 0,
    };
    assert(state.progress() == initial_progress()) by {
        assert(tokens_view(state.tokens@) =~= Seq::empty());
    }
    loop
        invariant_except_break
            state.wf(),
            lex_run(text, 1, 0, initial_progress()) == lex_run(
                state.pending(),
                state.line,
                state.col,
                state.progress(),
            ),
        ensures
            lex_run(text, 1, 0, initial_progress()) == (LexEnd {
                progress: state.progress(),
                line: state.line,
                col: state.col,
            }),
        decreases state.pending().len(),
    {
        proof {
            lemma_scan_shrinks(state.pending(), PreProcState::Default, state.line, state.col);
        }
        let read = next(&mut state);
        if read.is_none() {
            break ;
        }
        let c = read.unwrap();
        match state.mode {
            LexerMode::Quoted => {
                if state.escaped {
                    if c == 'n' {
                        push_char(&mut state.tmp, '\n');
                    } else {
                        push_char(&mut state.tmp, c);
                    }
                    state.escaped = false;
                } else if c == '"' {
                    end_token(&mut state);
                } else if c == '\\' {
                    state.escaped = true;
                } else {
                    push_char(&mut state.tmp, c);
                }
            },
            LexerMode::Raw => {
                if c == '(' {
                    token(&mut state, TokenType::OpenParen);
                } else if c == ')' {
                    token(&mut state, TokenType::CloseParen);
                } else if c == '{' {
                    token(&mut state, TokenType::OpenBrace);
                } else if c == '}' {
                    token(&mut state, TokenType::CloseBrace);
                } else if c == ';' {
                    token(&mut state, TokenType::Semicolon);
                } else if c == ' ' {
                    end_token(&mut state);
                } else {
                    push_char(&mut state.tmp, c);
                }
            },
            LexerMode::Idle => {
                if c == '(' {
                    token(&mut state, TokenType::OpenParen);
                } else if c == ')' {
                    token(&mut state, TokenType::CloseParen);
                } else if c == '{' {
                    token(&mut state, TokenType::OpenBrace);
                } else if c == '}' {
                    token(&mut state, TokenType::CloseBrace);
                } else if c == ';' {
                    token(&mut state, TokenType::Semicolon);
                } else if c == ' ' {
                } else if c == '"' {
                    start_token(&mut state, LexerMode::Quoted);
                } else {
                    start_token(&mut state, LexerMode::Raw);
                    push_char(&mut state.tmp, c);
                }
            },
        }
    }
    match state.mode {
        LexerMode::Quoted => fail(&state, ErrorType::UnexpectedEOF),
        _ => {
            end_token(&mut state);
            Ok(state.tokens)
        },
    }
}

} // verus!
