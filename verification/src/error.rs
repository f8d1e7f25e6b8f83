//! The errors that abort the analysis.

use vstd::prelude::*;
use vstd::string::*;

verus! {

/// Why the analysis stopped. The first error found anywhere in the tree ends
/// the whole pass.
#[derive(Clone, Debug, PartialEq, Eq)]
pub enum SemaError {
    /// A declaration of a name that already resolves in the scope chain.
    DuplicateDeclaration(String),
    /// A reference to a name that resolves nowhere in the scope chain.
    UndeclaredVariable(String),
    /// An identifier of a kind that the node it stands in cannot hold.
    InvalidIdentifier(String),
    /// A call of a name that resolves nowhere in the scope chain.
    FunctionNotFound(String),
    /// A call whose argument at `position` has another type than the
    /// parameter declared there.
    ArgumentTypeMismatch { function: String, position: usize },
    /// A call with another number of arguments than the function declares.
    ArgumentCountMismatch { function: String, expected: usize, found: usize },
    /// Internal: a type annotation that names no registered builtin type.
    UnknownBuiltin(String),
    /// Internal: a name that resolves to a symbol of another kind than the
    /// one its use demands.
    UnexpectedSymbol(String),
}

/// The mathematical model of a `SemaError`.
pub enum ErrorView {
    DuplicateDeclaration(Seq<char>),
    UndeclaredVariable(Seq<char>),
    InvalidIdentifier(Seq<char>),
    FunctionNotFound(Seq<char>),
    ArgumentTypeMismatch { function: Seq<char>, position: usize },
    ArgumentCountMismatch { function: Seq<char>, expected: usize, found: usize },
    UnknownBuiltin(Seq<char>),
    UnexpectedSymbol(Seq<char>),
}

impl View for SemaError {
    type V = ErrorView;

    open spec fn view(&self) -> ErrorView {
        match self {
            SemaError::DuplicateDeclaration(n) => ErrorView::DuplicateDeclaration(n@),
            SemaError::UndeclaredVariable(n) => ErrorView::UndeclaredVariable(n@),
            SemaError::InvalidIdentifier(n) => ErrorView::InvalidIdentifier(n@),
            SemaError::FunctionNotFound(n) => ErrorView::FunctionNotFound(n@),
            SemaError::ArgumentTypeMismatch { function, position } => ErrorView::ArgumentTypeMismatch {
                function: function@,
                position: *position,
            },
            SemaError::ArgumentCountMismatch {
                function,
                expected,
                found,
            } => ErrorView::ArgumentCountMismatch {
                function: function@,
                expected: *expected,
                found: *found,
            },
            SemaError::UnknownBuiltin(n) => ErrorView::UnknownBuiltin(n@),
            SemaError::UnexpectedSymbol(n) => ErrorView::UnexpectedSymbol(n@),
        }
    }
}

/// Whether an error reports a broken invariant of the tree or the table
/// rather than a mistake in the analysed program.
pub open spec fn internal(e: ErrorView) -> bool {
    e is UnknownBuiltin || e is UnexpectedSymbol
}

/// The name that an error is about: the offending identifier, type name or
/// function.
pub open spec fn subject(e: ErrorView) -> Seq<char> {
    match e {
        ErrorView::DuplicateDeclaration(n) => n,
        ErrorView::UndeclaredVariable(n) => n,
        ErrorView::InvalidIdentifier(n) => n,
        ErrorView::FunctionNotFound(n) => n,
        ErrorView::ArgumentTypeMismatch { function, .. } => function,
        ErrorView::ArgumentCountMismatch { function, .. } => function,
        ErrorView::UnknownBuiltin(n) => n,
        ErrorView::UnexpectedSymbol(n) => n,
    }
}

/// What stands before the name in an error's message.
pub open spec fn message_head(e: ErrorView) -> Seq<char> {
    match e {
        ErrorView::DuplicateDeclaration(_) => "Found duplicate variable declaration for '"@,
        ErrorView::UndeclaredVariable(_) => "Undeclared variable '"@,
        ErrorView::InvalidIdentifier(_) => "Invalid identifier found '"@,
        ErrorView::FunctionNotFound(_) => "Not found function '"@,
        ErrorView::ArgumentTypeMismatch { .. } => "Function params type not match in call of '"@,
        ErrorView::ArgumentCountMismatch { .. } => "Function params count not match in call of '"@,
        ErrorView::UnknownBuiltin(_) => "Invalid builtin type '"@,
        ErrorView::UnexpectedSymbol(_) => "Not supported symbol type for '"@,
    }
}

/// What stands after the name in an error's message.
pub open spec fn message_tail(e: ErrorView) -> Seq<char> {
    match e {
        ErrorView::DuplicateDeclaration(_) => "'!"@,
        ErrorView::UndeclaredVariable(_) => "' found."@,
        _ => "'"@,
    }
}

/// The message of an error: the nature of the violation around the
/// offending name.
pub open spec fn message_of(e: ErrorView) -> Seq<char> {
    message_head(e) + subject(e) + message_tail(e)
}

impl SemaError {
    /// The name that this error is about.
    pub fn name(&self) -> (r: &String)
        ensures
            r@ == subject(self@),
    {
        match self {
            SemaError::DuplicateDeclaration(n) => n,
            SemaError::UndeclaredVariable(n) => n,
            SemaError::InvalidIdentifier(n) => n,
            SemaError::FunctionNotFound(n) => n,
            SemaError::ArgumentTypeMismatch { function, .. } => function,
            SemaError::ArgumentCountMismatch { function, .. } => function,
            SemaError::UnknownBuiltin(n) => n,
            SemaError::UnexpectedSymbol(n) => n,
        }
    }

    /// The message of this error, for a diagnostic.
    pub fn message(&self) -> (r: String)
        ensures
            r@ == message_of(self@),
    {
        let head: &str = match self {
            SemaError::DuplicateDeclaration(_) => "Found duplicate variable declaration for '",
            SemaError::UndeclaredVariable(_) => "Undeclared variable '",
            SemaError::InvalidIdentifier(_) => "Invalid identifier found '",
            SemaError::FunctionNotFound(_) => "Not found function '",
            SemaError::ArgumentTypeMismatch { .. } => "Function params type not match in call of '",
            SemaError::ArgumentCountMismatch { .. } => "Function params count not match in call of '",
            SemaError::UnknownBuiltin(_) => "Invalid builtin type '",
            SemaError::UnexpectedSymbol(_) => "Not supported symbol type for '",
        };
        let tail: &str = match self {
            SemaError::DuplicateDeclaration(_) => "'!",
            SemaError::UndeclaredVariable(_) => "' found.",
            _ => "'",
        };
        String::from_str(head).concat(self.name().as_str()).concat(tail)
    }

    /// Whether this error is an internal one: see `internal`.
    pub fn is_internal(&self) -> (b: bool)
        ensures
            b == internal(self@),
    {
        match self {
            SemaError::UnknownBuiltin(_) => true,
            SemaError::UnexpectedSymbol(_) => true,
            _ => false,
        }
    }
}

} // verus!
