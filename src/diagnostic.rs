use crate::interpreter::{kind_name, RuntimeError};
use crate::lexer::LexError;
use crate::parser::SyntaxError;
use crate::span::Span;
use crate::token::token_name;
use codespan::FileId;
use vstd::prelude::*;
use vstd::string::*;

verus! {

#[derive(Debug, Clone, Copy, PartialEq, Eq, Structural)]
pub enum Severity {
    Error,
}

/// A message attached to a span of a file.
#[derive(Debug)]
pub struct Label {
    pub file: FileId,
    pub span: Span,
    pub message: String,
}

/// A structured error report: a message, a severity and labelled spans.
/// The library builds these; rendering them is left to the caller.
#[derive(Debug)]
pub struct Diagnostic {
    pub severity: Severity,
    pub message: String,
    pub labels: Vec<Label>,
}

/// Whether `d` is an error with message `message` and one label, on
/// `span` of `file`, that reads `label`.
pub open spec fn reports(d: Diagnostic, message: Seq<char>, file: FileId, span: Span, label: Seq<char>) -> bool {
    &&& d.severity == Severity::Error
    &&& d.message@ == message
    &&& d.labels@.len() == 1
    &&& d.labels@[0].file == file
    &&& d.labels@[0].span == span
    &&& d.labels@[0].message@ == label
}

pub open spec fn quoted(s: Seq<char>) -> Seq<char> {
    "'"@ + s + "'"@
}

pub open spec fn lex_error_span(e: LexError) -> Span {
    match e {
        LexError::UnknownCharacter { span } => span,
        LexError::UnterminatedString { span } => span,
    }
}

pub open spec fn syntax_span(e: SyntaxError) -> Span {
    match e {
        SyntaxError::Expected { span, .. } => span,
        SyntaxError::ExpectedOneOf { span, .. } => span,
        SyntaxError::ExpectedExpr { span } => span,
        SyntaxError::InvalidInteger { span } => span,
        SyntaxError::UnexpectedEof { span, .. } => span,
        SyntaxError::Lexical(l) => lex_error_span(l),
    }
}

pub open spec fn syntax_message(e: SyntaxError) -> Seq<char> {
    match e {
        SyntaxError::Expected { .. } => "unexpected token"@,
        SyntaxError::ExpectedOneOf { .. } => "unexpected token"@,
        SyntaxError::ExpectedExpr { .. } => "expected expression"@,
        SyntaxError::InvalidInteger { .. } => "invalid integer"@,
        SyntaxError::UnexpectedEof { .. } => "unexpected eof"@,
        SyntaxError::Lexical(LexError::UnknownCharacter { .. }) => "unknown character"@,
        SyntaxError::Lexical(LexError::UnterminatedString { .. }) => "unterminated string"@,
    }
}

pub open spec fn syntax_label(e: SyntaxError) -> Seq<char> {
    match e {
        SyntaxError::Expected { expected, found, .. } => "expected "@ + quoted(token_name(expected))
            + ", but got "@ + quoted(token_name(found)),
        SyntaxError::ExpectedOneOf { found, .. } => "expected one of '( <int> <string> <bool>', but got "@
            + quoted(token_name(found)),
        SyntaxError::ExpectedExpr { .. } => "expected expression"@,
        SyntaxError::InvalidInteger { .. } => "integer literal does not fit in 64 bits"@,
        SyntaxError::UnexpectedEof { expected, .. } => "expected "@ + quoted(token_name(expected))
            + ", but found eof"@,
        SyntaxError::Lexical(LexError::UnknownCharacter { .. }) => "no token starts with this character"@,
        SyntaxError::Lexical(LexError::UnterminatedString { .. }) => "missing closing quote"@,
    }
}

pub open spec fn runtime_span(e: RuntimeError) -> Span {
    match e {
        RuntimeError::TypeMismatch { span, .. } => span,
        RuntimeError::DivideByZero { span } => span,
        RuntimeError::Overflow { span } => span,
        RuntimeError::Unsupported { span } => span,
    }
}

pub open spec fn runtime_message(e: RuntimeError) -> Seq<char> {
    match e {
        RuntimeError::TypeMismatch { .. } => "invalid type"@,
        RuntimeError::DivideByZero { .. } => "division by zero"@,
        RuntimeError::Overflow { .. } => "integer overflow"@,
        RuntimeError::Unsupported { .. } => "unsupported expression"@,
    }
}

pub open spec fn runtime_label(e: RuntimeError) -> Seq<char> {
    match e {
        RuntimeError::TypeMismatch { expected, found, .. } => "expected "@ + quoted(kind_name(expected))
            + " found "@ + quoted(kind_name(found)),
        RuntimeError::DivideByZero { .. } => "the divisor is zero"@,
        RuntimeError::Overflow { .. } => "the result does not fit in 64 bits"@,
        RuntimeError::Unsupported { .. } => "calls and variables cannot be evaluated"@,
    }
}

fn error(message: &str, file: FileId, span: Span, label: String) -> (r: Diagnostic)
    ensures
        reports(r, message@, file, span, label@),
{
    let mut labels: Vec<Label> = Vec::new();
    labels.push(Label { file, span, message: label });
    Diagnostic { severity: Severity::Error, message: message.to_owned(), labels }
}

/// `a`, then `b` in single quotes, then `c`.
fn with_quoted(a: &str, b: &str, c: &str) -> (r: String)
    ensures
        r@ == a@ + quoted(b@) + c@,
{
    let mut s = a.to_owned();
    s.append("'");
    s.append(b);
    s.append("'");
    s.append(c);
    proof {
        assert(s@ =~= a@ + quoted(b@) + c@);
    }
    s
}

impl SyntaxError {
    /// The report of this error against file `file`.
    pub fn to_diagnostic(&self, file: FileId) -> (r: Diagnostic)
        ensures
            reports(r, syntax_message(*self), file, syntax_span(*self), syntax_label(*self)),
    {
        match *self {
            SyntaxError::Expected { expected, found, span } => {
                let mut label = with_quoted("expected ", expected.name(), ", but got ");
                label.append("'");
                label.append(found.name());
                label.append("'");
                proof {
                    assert(label@ =~= syntax_label(*self));
                }
                error("unexpected token", file, span, label)
            },
            SyntaxError::ExpectedOneOf { found, span } => {
                let label = with_quoted("expected one of '( <int> <string> <bool>', but got ", found.name(), "");
                proof {
                    reveal_strlit("");
                    assert(label@ =~= syntax_label(*self));
                }
                error("unexpected token", file, span, label)
            },
            SyntaxError::ExpectedExpr { span } => error(
                "expected expression",
                file,
                span,
                "expected expression".to_owned(),
            ),
            SyntaxError::InvalidInteger { span } => error(
                "invalid integer",
                file,
                span,
                "integer literal does not fit in 64 bits".to_owned(),
            ),
            SyntaxError::UnexpectedEof { expected, span } => {
                let label = with_quoted("expected ", expected.name(), ", but found eof");
                error("unexpected eof", file, span, label)
            },
            SyntaxError::Lexical(LexError::UnknownCharacter { span }) => error(
                "unknown character",
                file,
                span,
                "no token starts with this character".to_owned(),
            ),
            SyntaxError::Lexical(LexError::UnterminatedString { span }) => error(
                "unterminated string",
                file,
                span,
                "missing closing quote".to_owned(),
            ),
        }
    }
}

impl RuntimeError {
    /// The report of this error against file `file`.
    pub fn to_diagnostic(&self, file: FileId) -> (r: Diagnostic)
        ensures
            reports(r, runtime_message(*self), file, runtime_span(*self), runtime_label(*self)),
    {
        match *self {
            RuntimeError::TypeMismatch { expected, found, span } => {
                let mut label = with_quoted("expected ", expected.name(), " found ");
                label.append("'");
                label.append(found.name());
                label.append("'");
                proof {
                    assert(label@ =~= runtime_label(*self));
                }
                error("invalid type", file, span, label)
            },
            RuntimeError::DivideByZero { span } => error(
                "division by zero",
                file,
                span,
                "the divisor is zero".to_owned(),
            ),
            RuntimeError::Overflow { span } => error(
                "integer overflow",
                file,
                span,
                "the result does not fit in 64 bits".to_owned(),
            ),
            RuntimeError::Unsupported { span } => error(
                "unsupported expression",
                file,
                span,
                "calls and variables cannot be evaluated".to_owned(),
            ),
        }
    }
}

} // verus!
