//! Error values produced by the lexer, the parser and the type checker.
//! Rendering them as diagnostics is left to the front end.

use vstd::prelude::*;
use crate::lexer::token::Span;

verus! {

/// What went wrong while lexing.
#[derive(Debug, Clone, Copy, PartialEq, Eq, Structural)]
pub enum LexErrorKind {
    /// A character that starts no token (`!` alone, or any other stray character).
    InvalidToken(char),
    /// A dedent to a column that matches no enclosing block.
    Indentation { expected: usize, found: usize },
    /// A backslash at the very end of the input inside a string literal.
    UnterminatedStringEscape,
    /// A string literal without its closing quote.
    UnterminatedString,
    /// An integer literal that does not fit in `i64`; the span covers its digits.
    InvalidNumber,
}

#[derive(Debug, Clone, Copy, PartialEq, Eq, Structural)]
pub struct LexError {
    pub kind: LexErrorKind,
    pub span: Span,
}

impl LexError {
    pub open spec fn mk(kind: LexErrorKind, span: Span) -> LexError {
        LexError { kind, span }
    }

    pub fn invalid_token(c: char, span: Span) -> (r: LexError)
        ensures
            r == LexError::mk(LexErrorKind::InvalidToken(c), span),
    {
        LexError { kind: LexErrorKind::InvalidToken(c), span }
    }

    pub fn indentation(expected: usize, found: usize, span: Span) -> (r: LexError)
        ensures
            r == LexError::mk(LexErrorKind::Indentation { expected, found }, span),
    {
        LexError { kind: LexErrorKind::Indentation { expected, found }, span }
    }

    pub fn unterminated_string_escape(span: Span) -> (r: LexError)
        ensures
            r == LexError::mk(LexErrorKind::UnterminatedStringEscape, span),
    {
        LexError { kind: LexErrorKind::UnterminatedStringEscape, span }
    }

    pub fn unterminated_string(span: Span) -> (r: LexError)
        ensures
            r == LexError::mk(LexErrorKind::UnterminatedString, span),
    {
        LexError { kind: LexErrorKind::UnterminatedString, span }
    }

    pub fn invalid_number(span: Span) -> (r: LexError)
        ensures
            r == LexError::mk(LexErrorKind::InvalidNumber, span),
    {
        LexError { kind: LexErrorKind::InvalidNumber, span }
    }
}

/// What the type checker rejects.
#[derive(Debug)]
pub enum SemanticError {
    /// A value whose type does not fit what the context expects.
    TypeMismatch {
        expected: String,
        found: String,
        expected_span: Span,
        found_span: Span,
        help: Option<String>,
    },
    /// Any other rejected construct, with a message, a label for the span and a hint.
    Generic { message: String, span: Span, label: String, help: Option<String> },
    /// A name read before anything bound it.
    UndefinedVariable { name: String, span: Span },
}

/// The mathematical value of a [`SemanticError`].
pub enum SemErr {
    TypeMismatch {
        expected: Seq<char>,
        found: Seq<char>,
        expected_span: Span,
        found_span: Span,
        help: Option<Seq<char>>,
    },
    Generic { message: Seq<char>, span: Span, label: Seq<char>, help: Option<Seq<char>> },
    UndefinedVariable { name: Seq<char>, span: Span },
}

pub open spec fn view_opt_text(s: Option<String>) -> Option<Seq<char>> {
    match s {
        Some(s) => Some(s@),
        None => None,
    }
}

impl View for SemanticError {
    type V = SemErr;

    open spec fn view(&self) -> SemErr {
        match *self {
            SemanticError::TypeMismatch { expected, found, expected_span, found_span, help } =>
                SemErr::TypeMismatch {
                expected: expected@,
                found: found@,
                expected_span,
                found_span,
                help: view_opt_text(help),
            },
            SemanticError::Generic { message, span, label, help } => SemErr::Generic {
                message: message@,
                span,
                label: label@,
                help: view_opt_text(help),
            },
            SemanticError::UndefinedVariable { name, span } => SemErr::UndefinedVariable {
                name: name@,
                span,
            },
        }
    }
}

/// What kind of syntax error the parser found.
#[derive(Debug)]
pub enum ParseErrorKind {
    /// Any other error; the message says it all.
    Custom,
    /// A closing delimiter (or a newline or colon) is missing; the span is the
    /// point where it belongs.
    MissingDelimiter { delimiter: String, context: Option<String> },
    /// A token other than the expected one.
    UnexpectedToken { expected: String, found: String },
}

/// A syntax error: its message, its kind, and where it is.
#[derive(Debug)]
pub struct ParseError {
    pub message: String,
    pub kind: ParseErrorKind,
    pub span: Span,
}

pub enum PErrKind {
    Custom,
    MissingDelimiter { delimiter: Seq<char>, context: Option<Seq<char>> },
    UnexpectedToken { expected: Seq<char>, found: Seq<char> },
}

/// The mathematical value of a [`ParseError`].
pub struct PErr {
    pub message: Seq<char>,
    pub kind: PErrKind,
    pub span: Span,
}

impl View for ParseError {
    type V = PErr;

    open spec fn view(&self) -> PErr {
        PErr {
            message: self.message@,
            kind: match self.kind {
                ParseErrorKind::Custom => PErrKind::Custom,
                ParseErrorKind::MissingDelimiter { delimiter, context } => PErrKind::MissingDelimiter {
                    delimiter: delimiter@,
                    context: view_opt_text(context),
                },
                ParseErrorKind::UnexpectedToken { expected, found } => PErrKind::UnexpectedToken {
                    expected: expected@,
                    found: found@,
                },
            },
            span: self.span,
        }
    }
}

pub open spec fn perr_custom(message: Seq<char>, span: Span) -> PErr {
    PErr { message, kind: PErrKind::Custom, span }
}

pub open spec fn perr_missing(delimiter: Seq<char>, span: Span, context: Seq<char>) -> PErr {
    PErr {
        message: "missing `"@ + delimiter + "`"@,
        kind: PErrKind::MissingDelimiter { delimiter, context: Some(context) },
        span,
    }
}

pub open spec fn perr_unexpected(expected: Seq<char>, found: Seq<char>, span: Span) -> PErr {
    PErr {
        message: "expected "@ + expected + ", found "@ + found,
        kind: PErrKind::UnexpectedToken { expected, found },
        span,
    }
}

impl ParseError {
    /// An error with a message of its own.
    pub fn new(message: String, span: Span) -> (r: ParseError)
        ensures
            r@ == perr_custom(message@, span),
    {
        ParseError { message, kind: ParseErrorKind::Custom, span }
    }

    /// A missing `delimiter`, which belongs at the point `span`; `context` says
    /// what was being parsed.
    pub fn missing_delimiter(delimiter: &str, span: Span, context: String) -> (r: ParseError)
        ensures
            r@ == perr_missing(delimiter@, span, context@),
    {
        let mut message = "missing `".to_owned();
        message.append(delimiter);
        message.append("`");
        ParseError {
            message,
            kind: ParseErrorKind::MissingDelimiter { delimiter: delimiter.to_owned(), context: Some(context) },
            span,
        }
    }

    /// `found` where `expected` was expected.
    pub fn unexpected_token(expected: String, found: String, span: Span) -> (r: ParseError)
        ensures
            r@ == perr_unexpected(expected@, found@, span),
    {
        let mut message = "expected ".to_owned();
        message.append(expected.as_str());
        message.append(", found ");
        message.append(found.as_str());
        ParseError { message, kind: ParseErrorKind::UnexpectedToken { expected, found }, span }
    }
}

/// The message of a lexical error.
pub open spec fn lex_message(e: LexError) -> Seq<char> {
    match e.kind {
        LexErrorKind::InvalidToken(c) => "invalid token `"@ + seq![c] + "`"@,
        LexErrorKind::Indentation { .. } => "inconsistent indentation"@,
        LexErrorKind::UnterminatedStringEscape => "unterminated escape sequence in string literal"@,
        LexErrorKind::UnterminatedString => "unterminated string literal"@,
        LexErrorKind::InvalidNumber => "integer literal is too large"@,
    }
}

impl LexError {
    /// The message of the error, as shown to users.
    pub fn message(&self) -> (r: String)
        ensures
            r@ == lex_message(*self),
    {
        match self.kind {
            LexErrorKind::InvalidToken(c) => {
                let mut m = "invalid token `".to_owned();
                let mut cs = String::new();
                crate::lexer::chars::string_push(&mut cs, c);
                m.append(cs.as_str());
                m.append("`");
                assert(cs@ =~= seq![c]);
                m
            },
            LexErrorKind::Indentation { .. } => "inconsistent indentation".to_owned(),
            LexErrorKind::UnterminatedStringEscape => "unterminated escape sequence in string literal".to_owned(),
            LexErrorKind::UnterminatedString => "unterminated string literal".to_owned(),
            LexErrorKind::InvalidNumber => "integer literal is too large".to_owned(),
        }
    }
}

} // verus!
