//! The error model shared by the lexer and the parser.

use crate::lexer::{Token, TokenView};
use vstd::prelude::*;

verus! {

/// What the lexer and the parser return.
pub type Result<T> = core::result::Result<T, Error>;

/// The kinds of failure.
#[derive(Debug, PartialEq, Eq)]
pub enum ErrorType {
    /// The input ended while a construct was still open.
    UnexpectedEOF,
    /// A token appeared where the grammar forbids it.
    Unexpected(Token),
    /// A caller-level check found a parameter missing. Neither the lexer nor
    /// the parser raises this.
    MissingParameter(String),
}

/// The mathematical model of an [`ErrorType`].
pub enum ErrorTypeView {
    UnexpectedEOF,
    Unexpected(TokenView),
    MissingParameter(Seq<char>),
}

impl View for ErrorType {
    type V = ErrorTypeView;

    open spec fn view(&self) -> ErrorTypeView {
        match *self {
            ErrorType::UnexpectedEOF => ErrorTypeView::UnexpectedEOF,
            ErrorType::Unexpected(t) => ErrorTypeView::Unexpected(t@),
            ErrorType::MissingParameter(s) => ErrorTypeView::MissingParameter(s@),
        }
    }
}

/// Something that knows a position in the source text.
pub trait CodePos {
    /// The position as `(line, column)`.
    fn location(&self) -> (u32, u16);
}

/// A failure together with the place where it was noticed.
#[derive(Debug, PartialEq, Eq)]
pub struct Error {
    error_type: ErrorType,
    line: u32,
    col: u16,
    expected: Option<&'static str>,
}

/// The mathematical model of an [`Error`].
pub struct ErrorView {
    pub error_type: ErrorTypeView,
    pub line: u32,
    pub col: u16,
    pub expected: Option<Seq<char>>,
}

/// The model of an optional hint.
pub open spec fn hint_view(expected: Option<&'static str>) -> Option<Seq<char>> {
    match expected {
        Some(s) => Some(s@),
        None => None,
    }
}

impl View for Error {
    type V = ErrorView;

    closed spec fn view(&self) -> ErrorView {
        ErrorView {
            error_type: self.error_type@,
            line: self.line,
            col: self.col,
            expected: hint_view(self.expected),
        }
    }
}

impl Error {
    /// An error of kind `etype` at `(line, col)`, with an optional hint on
    /// what was expected there.
    pub fn new(line: u32, col: u16, etype: ErrorType, expected: Option<&'static str>) -> (e: Error)
        ensures
            e@ == (ErrorView {
                error_type: etype@,
                line: line,
                col: col,
                expected: hint_view(expected),
            }),
    {
        Error { error_type: etype, line: line, col: col, expected: expected }
    }

    /// An error of kind `etype` at the position that `pos` reports.
    pub fn from_state<T: CodePos>(pos: &T, etype: ErrorType, expected: Option<&'static str>) -> (e:
        Error)
        ensures
            exists|p: (u32, u16)|
                #![auto]
                call_ensures(T::location, (pos,), p) && e@ == (ErrorView {
                    error_type: etype@,
                    line: p.0,
                    col: p.1,
                    expected: hint_view(expected),
                }),
    {
        let p = pos.location();
        Error::new(p.0, p.1, etype, expected)
    }
}

} // verus!
