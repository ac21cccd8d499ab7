//! Diagnostics: the kinds of syntax error and where each was found.

use vstd::prelude::*;
use vstd::string::*;
use crate::text::{decimal, push_decimal};

verus! {

/// Every way in which a run of tokens can fail to be an expression.
#[derive(Clone, Copy, Debug, PartialEq, Eq, Structural)]
pub enum ErrorKind {
    /// The right-hand side of an assignment is itself an assignment.
    AssignmentAsValue,
    /// An object pattern holds a value that is no variable, member access or `_`.
    InvalidObjectPattern,
    /// A list pattern holds an element that is no variable, member access or `_`.
    InvalidListPattern,
    /// The left-hand side of an assignment cannot be assigned to.
    InvalidAssignmentTarget,
    /// A compound assignment or an increment applies to something that is no variable.
    ExpectedVariable,
    /// A numeric literal does not denote a number of its type.
    InvalidNumber,
    /// `)` is missing.
    ExpectedRParen,
    /// `]` is missing.
    ExpectedRBracket,
    /// The input ends inside `{ ... }`.
    UnexpectedEndInBraces,
    /// An identifier is missing.
    ExpectedIdentifier,
    /// `:` is missing.
    ExpectedColon,
    /// `}` is missing.
    ExpectedRBrace,
    /// `[` is missing.
    ExpectedLBracket,
    /// `{` is missing.
    ExpectedLBrace,
    /// `->` is missing.
    ExpectedArrow,
    /// A macro of that name exists already.
    MacroAlreadyDefined,
    /// No macro of that name exists yet.
    MacroNotDefined,
    /// A macro is used that was never defined.
    MacroUndefined,
    /// No expression starts with this token.
    UnexpectedToken,
    /// `func` is missing.
    ExpectedFunc,
    /// A decorated function has no name.
    ExpectedFunctionName,
    /// `(` is missing.
    ExpectedLParen,
    /// A parameter follows the rest parameter.
    ParameterAfterRest,
}

/// The fixed text of each kind of error.
pub open spec fn message_text(kind: ErrorKind) -> Seq<char> {
    match kind {
        ErrorKind::AssignmentAsValue => "assignment value should not be assignment"@,
        ErrorKind::InvalidObjectPattern => "expected variable names or _ for object values"@,
        ErrorKind::InvalidListPattern => "expected variable names or _ for elements"@,
        ErrorKind::InvalidAssignmentTarget => "invalid assignment target"@,
        ErrorKind::ExpectedVariable => "expected a variable"@,
        ErrorKind::InvalidNumber => "invalid number"@,
        ErrorKind::ExpectedRParen => "expected ')'"@,
        ErrorKind::ExpectedRBracket => "expected ']'"@,
        ErrorKind::UnexpectedEndInBraces => "unexpected end of input inside block or object"@,
        ErrorKind::ExpectedIdentifier => "expected an identifier"@,
        ErrorKind::ExpectedColon => "expected ':'"@,
        ErrorKind::ExpectedRBrace => "expected '}'"@,
        ErrorKind::ExpectedLBracket => "expected '['"@,
        ErrorKind::ExpectedLBrace => "expected '{'"@,
        ErrorKind::ExpectedArrow => "expected '->'"@,
        ErrorKind::MacroAlreadyDefined => "macro with the same name is already defined"@,
        ErrorKind::MacroNotDefined => "macro with the same name is not defined"@,
        ErrorKind::MacroUndefined => "macro undefined"@,
        ErrorKind::UnexpectedToken => "unexpected token"@,
        ErrorKind::ExpectedFunc => "expected 'func'"@,
        ErrorKind::ExpectedFunctionName => "expected function name"@,
        ErrorKind::ExpectedLParen => "expected '('"@,
        ErrorKind::ParameterAfterRest => "required parameter cannot follow rest parameter"@,
    }
}

impl ErrorKind {
    /// The fixed text of this kind of error.
    pub fn message(self) -> (text: &'static str)
        ensures
            text@ == message_text(self),
    {
        match self {
            ErrorKind::AssignmentAsValue => "assignment value should not be assignment",
            ErrorKind::InvalidObjectPattern => "expected variable names or _ for object values",
            ErrorKind::InvalidListPattern => "expected variable names or _ for elements",
            ErrorKind::InvalidAssignmentTarget => "invalid assignment target",
            ErrorKind::ExpectedVariable => "expected a variable",
            ErrorKind::InvalidNumber => "invalid number",
            ErrorKind::ExpectedRParen => "expected ')'",
            ErrorKind::ExpectedRBracket => "expected ']'",
            ErrorKind::UnexpectedEndInBraces => "unexpected end of input inside block or object",
            ErrorKind::ExpectedIdentifier => "expected an identifier",
            ErrorKind::ExpectedColon => "expected ':'",
            ErrorKind::ExpectedRBrace => "expected '}'",
            ErrorKind::ExpectedLBracket => "expected '['",
            ErrorKind::ExpectedLBrace => "expected '{'",
            ErrorKind::ExpectedArrow => "expected '->'",
            ErrorKind::MacroAlreadyDefined => "macro with the same name is already defined",
            ErrorKind::MacroNotDefined => "macro with the same name is not defined",
            ErrorKind::MacroUndefined => "macro undefined",
            ErrorKind::UnexpectedToken => "unexpected token",
            ErrorKind::ExpectedFunc => "expected 'func'",
            ErrorKind::ExpectedFunctionName => "expected function name",
            ErrorKind::ExpectedLParen => "expected '('",
            ErrorKind::ParameterAfterRest => "required parameter cannot follow rest parameter",
        }
    }
}

/// A syntax error: what went wrong, and the line and column of the token at
/// which it was found.
#[derive(Debug, PartialEq)]
pub struct ParserError {
    pub msg: String,
    pub line: usize,
    pub col: usize,
}

/// The mathematical value of a [`ParserError`].
pub struct ErrorView {
    pub message: Seq<char>,
    pub line: usize,
    pub col: usize,
}

impl ErrorView {
    /// The diagnostic line for this error in the file called `filename`:
    /// `<filename>:<line>:<col> error: <message>`.
    pub open spec fn headline(self, filename: Seq<char>) -> Seq<char> {
        filename + ":"@ + decimal(self.line as nat) + ":"@ + decimal(self.col as nat) + " error: "@
            + self.message
    }
}

impl View for ParserError {
    type V = ErrorView;

    open spec fn view(&self) -> ErrorView {
        ErrorView { message: self.msg@, line: self.line, col: self.col }
    }
}

impl Clone for ParserError {
    fn clone(&self) -> (copy: Self)
        ensures
            copy@ == self@,
    {
        ParserError { msg: self.msg.clone(), line: self.line, col: self.col }
    }
}

impl ParserError {
    /// An error with the text `msg`, found at `line`, `col`.
    pub fn new(msg: &str, line: usize, col: usize) -> (error: Self)
        ensures
            error@ == (ErrorView { message: msg@, line, col }),
    {
        ParserError { msg: String::from_str(msg), line, col }
    }

    /// The diagnostic line for this error in the file called `filename`.
    pub fn format(&self, filename: &str) -> (line: String)
        ensures
            line@ == self@.headline(filename@),
    {
        let mut out = String::from_str(filename);
        out.append(":");
        push_decimal(&mut out, self.line as u64);
        out.append(":");
        push_decimal(&mut out, self.col as u64);
        out.append(" error: ");
        out.append(self.msg.as_str());
        out
    }
}

/// The views of a run of errors, in order.
pub open spec fn error_views(errors: Seq<ParserError>) -> Seq<ErrorView> {
    Seq::new(errors.len(), |i: int| errors[i]@)
}

} // verus!
