//! The closed set of failures that lexing, parsing and evaluation can report.

use vstd::prelude::*;
use vstd::string::StringExecFns;

verus! {

/// Every failure the language front end and the evaluator can report.
#[derive(Debug, Clone)]
pub enum GizmoError {
    /// The source text could not be split into tokens.
    LexError(String),
    /// The token stream is not a program.
    ParseError(String),
    /// A failure during evaluation that fits no narrower kind.
    RuntimeError(String),
    /// An operation met a value of the wrong variant.
    TypeError(String),
    /// An index or pixel coordinate lies outside its container.
    IndexError(String),
    /// Division or remainder by zero.
    DivisionByZero,
    /// Rows that do not form a rectangular, non-empty raster.
    InvalidFrameSize(String),
    /// A name that no enclosing scope binds.
    UndefinedVariable(String),
    /// A call to a name that is not a known function.
    UndefinedFunction(String),
    /// A builtin was called with the wrong number or kind of arguments.
    ArgumentError(String),
    /// A failure of the host while loading a script.
    IOError(String),
}

/// The kind of a failure, without its message.
#[derive(Clone, Copy, Debug, PartialEq, Eq, Structural)]
pub enum ErrorKind {
    Lex,
    Parse,
    Runtime,
    Type,
    Index,
    DivisionByZero,
    InvalidFrameSize,
    UndefinedVariable,
    UndefinedFunction,
    Argument,
    IO,
}

impl GizmoError {
    /// The kind of this failure.
    pub open spec fn kind(self) -> ErrorKind {
        match self {
            GizmoError::LexError(_) => ErrorKind::Lex,
            GizmoError::ParseError(_) => ErrorKind::Parse,
            GizmoError::RuntimeError(_) => ErrorKind::Runtime,
            GizmoError::TypeError(_) => ErrorKind::Type,
            GizmoError::IndexError(_) => ErrorKind::Index,
            GizmoError::DivisionByZero => ErrorKind::DivisionByZero,
            GizmoError::InvalidFrameSize(_) => ErrorKind::InvalidFrameSize,
            GizmoError::UndefinedVariable(_) => ErrorKind::UndefinedVariable,
            GizmoError::UndefinedFunction(_) => ErrorKind::UndefinedFunction,
            GizmoError::ArgumentError(_) => ErrorKind::Argument,
            GizmoError::IOError(_) => ErrorKind::IO,
        }
    }

    /// The message or name that the failure carries; empty for division by zero.
    pub open spec fn detail(self) -> Seq<char> {
        match self {
            GizmoError::LexError(m) => m@,
            GizmoError::ParseError(m) => m@,
            GizmoError::RuntimeError(m) => m@,
            GizmoError::TypeError(m) => m@,
            GizmoError::IndexError(m) => m@,
            GizmoError::DivisionByZero => Seq::empty(),
            GizmoError::InvalidFrameSize(m) => m@,
            GizmoError::UndefinedVariable(m) => m@,
            GizmoError::UndefinedFunction(m) => m@,
            GizmoError::ArgumentError(m) => m@,
            GizmoError::IOError(m) => m@,
        }
    }

    /// The words that introduce a failure of each kind when it is shown.
    pub open spec fn heading(k: ErrorKind) -> Seq<char> {
        match k {
            ErrorKind::Lex => "Lexical error: "@,
            ErrorKind::Parse => "Parse error: "@,
            ErrorKind::Runtime => "Runtime error: "@,
            ErrorKind::Type => "Type error: "@,
            ErrorKind::Index => "Index error: "@,
            ErrorKind::DivisionByZero => "Division by zero"@,
            ErrorKind::InvalidFrameSize => "Invalid frame size: "@,
            ErrorKind::UndefinedVariable => "Undefined variable: "@,
            ErrorKind::UndefinedFunction => "Undefined function: "@,
            ErrorKind::Argument => "Argument error: "@,
            ErrorKind::IO => "IO error: "@,
        }
    }

    /// The failure as shown to a user: its heading followed by its detail.
    pub open spec fn text(self) -> Seq<char> {
        Self::heading(self.kind()) + self.detail()
    }

    /// The kind of this failure.
    pub fn error_kind(&self) -> (k: ErrorKind)
        ensures
            k == self.kind(),
    {
        match self {
            GizmoError::LexError(_) => ErrorKind::Lex,
            GizmoError::ParseError(_) => ErrorKind::Parse,
            GizmoError::RuntimeError(_) => ErrorKind::Runtime,
            GizmoError::TypeError(_) => ErrorKind::Type,
            GizmoError::IndexError(_) => ErrorKind::Index,
            GizmoError::DivisionByZero => ErrorKind::DivisionByZero,
            GizmoError::InvalidFrameSize(_) => ErrorKind::InvalidFrameSize,
            GizmoError::UndefinedVariable(_) => ErrorKind::UndefinedVariable,
            GizmoError::UndefinedFunction(_) => ErrorKind::UndefinedFunction,
            GizmoError::ArgumentError(_) => ErrorKind::Argument,
            GizmoError::IOError(_) => ErrorKind::IO,
        }
    }

    /// Renders the failure for display.
    pub fn to_text(&self) -> (s: String)
        ensures
            s@ == self.text(),
    {
        match self {
            GizmoError::LexError(m) => String::from_str("Lexical error: ").concat(m.as_str()),
            GizmoError::ParseError(m) => String::from_str("Parse error: ").concat(m.as_str()),
            GizmoError::RuntimeError(m) => String::from_str("Runtime error: ").concat(m.as_str()),
            GizmoError::TypeError(m) => String::from_str("Type error: ").concat(m.as_str()),
            GizmoError::IndexError(m) => String::from_str("Index error: ").concat(m.as_str()),
            GizmoError::DivisionByZero => {
                let s = String::from_str("Division by zero");
                assert(s@ + Seq::<char>::empty() =~= s@);
                s
            },
            GizmoError::InvalidFrameSize(m) => String::from_str("Invalid frame size: ").concat(
                m.as_str(),
            ),
            GizmoError::UndefinedVariable(m) => String::from_str("Undefined variable: ").concat(
                m.as_str(),
            ),
            GizmoError::UndefinedFunction(m) => String::from_str("Undefined function: ").concat(
                m.as_str(),
            ),
            GizmoError::ArgumentError(m) => String::from_str("Argument error: ").concat(
                m.as_str(),
            ),
            GizmoError::IOError(m) => String::from_str("IO error: ").concat(m.as_str()),
        }
    }
}

} // verus!
