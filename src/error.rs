use vstd::prelude::*;

verus! {

/// The construct the parser was looking for where it stopped.
#[derive(Debug, Clone, Copy, PartialEq, Eq)]
pub enum Expected {
    /// A '[' where extras are not allowed.
    NoExtras,
    /// The ']' that closes the extras.
    CloseBracket,
    /// A comparison operator.
    Operator,
    /// A version after a comparison operator.
    Version,
    /// A variable or a quoted literal in a marker.
    Value,
    /// A closing quote of a literal.
    CloseQuote,
    /// A comparison operator, `in` or `not in` in a marker.
    MarkerOperator,
    /// The ')' that closes a group in a marker.
    CloseParen,
    /// Nothing more.
    EndOfInput,
}

/// What went wrong while reading, checking or evaluating a requirement.
#[derive(Debug, Clone, PartialEq, Eq)]
pub enum RequirementError {
    /// A package name or extra that is not a valid name.
    InvalidName { name: String },
    /// A run of operator characters that is no comparison operator.
    UnrecognizedOperator { token: String },
    /// The `===` operator, which is recognized but not supported.
    UnsupportedOperator,
    /// Any other violation of the grammar, with the whole input and the
    /// char position where the parser stopped.
    Grammar { input: String, position: usize, expected: Expected },
    /// Extras where the requirement may not have any.
    UnexpectedExtras,
    /// An environment marker where the requirement may not have one.
    UnexpectedMarker,
    /// A marker variable that the environment does not define.
    UndefinedVariable { name: String },
}

/// The mathematical value of a `RequirementError`.
pub enum ErrorView {
    InvalidName(Seq<char>),
    UnrecognizedOperator(Seq<char>),
    UnsupportedOperator,
    Grammar { input: Seq<char>, position: int, expected: Expected },
    UnexpectedExtras,
    UnexpectedMarker,
    UndefinedVariable(Seq<char>),
}

impl View for RequirementError {
    type V = ErrorView;

    open spec fn view(&self) -> ErrorView {
        match self {
            RequirementError::InvalidName { name } => ErrorView::InvalidName(name@),
            RequirementError::UnrecognizedOperator { token } => ErrorView::UnrecognizedOperator(
                token@,
            ),
            RequirementError::UnsupportedOperator => ErrorView::UnsupportedOperator,
            RequirementError::Grammar { input, position, expected } => ErrorView::Grammar {
                input: input@,
                position: *position as int,
                expected: *expected,
            },
            RequirementError::UnexpectedExtras => ErrorView::UnexpectedExtras,
            RequirementError::UnexpectedMarker => ErrorView::UnexpectedMarker,
            RequirementError::UndefinedVariable { name } => ErrorView::UndefinedVariable(name@),
        }
    }
}

} // verus!
