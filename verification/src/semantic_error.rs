//! Diagnostics of the semantic analysis. They are collected, never thrown:
//! the analysis records one and goes on.

use crate::text::{decimal, decimal_text, join3};
use crate::token::{token_option_view, Token, TokenView};
use vstd::prelude::*;

verus! {

/// What went wrong.
#[derive(Debug)]
#[allow(inconsistent_fields)]
pub enum SemanticErrorKind {
    UndeclaredIdentifier(String),
    RedeclaredIdentifier(String),
    TypeMismatch { expected: String, found: String },
    InvalidOperation { op: String, types: String },
    WrongParameterCount { expected: usize, found: usize },
    NotCallable(String),
    NotAssignable(String),
    InvalidArrayBounds,
    InvalidLoopVariable,
    ConditionNotBoolean,
}

/// A kind of diagnostic as the contracts see it.
#[allow(inconsistent_fields)]
pub enum ErrorKindView {
    UndeclaredIdentifier(Seq<char>),
    RedeclaredIdentifier(Seq<char>),
    TypeMismatch { expected: Seq<char>, found: Seq<char> },
    InvalidOperation { op: Seq<char>, types: Seq<char> },
    WrongParameterCount { expected: nat, found: nat },
    NotCallable(Seq<char>),
    NotAssignable(Seq<char>),
    InvalidArrayBounds,
    InvalidLoopVariable,
    ConditionNotBoolean,
}

impl View for SemanticErrorKind {
    type V = ErrorKindView;

    open spec fn view(&self) -> ErrorKindView {
        match *self {
            SemanticErrorKind::UndeclaredIdentifier(name) => ErrorKindView::UndeclaredIdentifier(
                name@,
            ),
            SemanticErrorKind::RedeclaredIdentifier(name) => ErrorKindView::RedeclaredIdentifier(
                name@,
            ),
            SemanticErrorKind::TypeMismatch { expected, found } => ErrorKindView::TypeMismatch {
                expected: expected@,
                found: found@,
            },
            SemanticErrorKind::InvalidOperation { op, types } => ErrorKindView::InvalidOperation {
                op: op@,
                types: types@,
            },
            SemanticErrorKind::WrongParameterCount {
                expected,
                found,
            } => ErrorKindView::WrongParameterCount {
                expected: expected as nat,
                found: found as nat,
            },
            SemanticErrorKind::NotCallable(name) => ErrorKindView::NotCallable(name@),
            SemanticErrorKind::NotAssignable(name) => ErrorKindView::NotAssignable(name@),
            SemanticErrorKind::InvalidArrayBounds => ErrorKindView::InvalidArrayBounds,
            SemanticErrorKind::InvalidLoopVariable => ErrorKindView::InvalidLoopVariable,
            SemanticErrorKind::ConditionNotBoolean => ErrorKindView::ConditionNotBoolean,
        }
    }
}

impl Clone for SemanticErrorKind {
    fn clone(&self) -> (r: SemanticErrorKind)
        ensures
            r@ == self@,
    {
        match self {
            SemanticErrorKind::UndeclaredIdentifier(name) => {
                SemanticErrorKind::UndeclaredIdentifier(name.clone())
            },
            SemanticErrorKind::RedeclaredIdentifier(name) => {
                SemanticErrorKind::RedeclaredIdentifier(name.clone())
            },
            SemanticErrorKind::TypeMismatch { expected, found } => SemanticErrorKind::TypeMismatch {
                expected: expected.clone(),
                found: found.clone(),
            },
            SemanticErrorKind::InvalidOperation { op, types } => {
                SemanticErrorKind::InvalidOperation { op: op.clone(), types: types.clone() }
            },
            SemanticErrorKind::WrongParameterCount {
                expected,
                found,
            } => SemanticErrorKind::WrongParameterCount { expected: *expected, found: *found },
            SemanticErrorKind::NotCallable(name) => SemanticErrorKind::NotCallable(name.clone()),
            SemanticErrorKind::NotAssignable(name) => SemanticErrorKind::NotAssignable(
                name.clone(),
            ),
            SemanticErrorKind::InvalidArrayBounds => SemanticErrorKind::InvalidArrayBounds,
            SemanticErrorKind::InvalidLoopVariable => SemanticErrorKind::InvalidLoopVariable,
            SemanticErrorKind::ConditionNotBoolean => SemanticErrorKind::ConditionNotBoolean,
        }
    }
}

/// The sentence that goes with each kind of diagnostic.
#[verifier::opaque]
pub open spec fn message_of(kind: ErrorKindView) -> Seq<char> {
    match kind {
        ErrorKindView::UndeclaredIdentifier(name) => "Undeclared identifier '"@ + name + "'"@,
        ErrorKindView::RedeclaredIdentifier(name) => "Identifier '"@ + name
            + "' is already declared in this scope"@,
        ErrorKindView::TypeMismatch { expected, found } => "Type mismatch: expected "@ + expected
            + ", found "@ + found,
        ErrorKindView::InvalidOperation { op, types } => "Invalid operation '"@ + op
            + "' for types "@ + types,
        ErrorKindView::WrongParameterCount { expected, found } =>
            "Wrong number of parameters: expected "@ + decimal_text(expected) + ", found "@
                + decimal_text(found),
        ErrorKindView::NotCallable(name) => "'"@ + name + "' is not a procedure or function"@,
        ErrorKindView::NotAssignable(name) => "Cannot assign to '"@ + name + "'"@,
        ErrorKindView::InvalidArrayBounds =>
            "Invalid array bounds: lower bound must be less than or equal to upper bound"@,
        ErrorKindView::InvalidLoopVariable => "Loop variable must be of integer type"@,
        ErrorKindView::ConditionNotBoolean => "Condition must be of boolean type"@,
    }
}

/// One diagnostic: its kind, the sentence for a reader, and the token it is
/// about where one is known.
#[derive(Debug)]
pub struct SemanticError {
    pub kind: SemanticErrorKind,
    pub message: String,
    pub token: Option<Token>,
}

/// A diagnostic as the contracts see it.
pub struct ErrorView {
    pub kind: ErrorKindView,
    pub message: Seq<char>,
    pub token: Option<TokenView>,
}

impl View for SemanticError {
    type V = ErrorView;

    open spec fn view(&self) -> ErrorView {
        ErrorView {
            kind: self.kind@,
            message: self.message@,
            token: token_option_view(self.token),
        }
    }
}

/// The diagnostic of a given kind about a given token.
pub open spec fn diagnostic(kind: ErrorKindView, token: Option<TokenView>) -> ErrorView {
    ErrorView { kind, message: message_of(kind), token }
}

/// The diagnostic for a name that no declaration in scope introduces.
pub open spec fn undeclared(name: Seq<char>) -> ErrorView {
    diagnostic(ErrorKindView::UndeclaredIdentifier(name), None)
}

/// The diagnostic for a name declared a second time in one block.
pub open spec fn redeclared(name: Seq<char>) -> ErrorView {
    diagnostic(ErrorKindView::RedeclaredIdentifier(name), None)
}

/// The diagnostic for a value whose type does not fit its place.
pub open spec fn type_mismatch(expected: Seq<char>, found: Seq<char>) -> ErrorView {
    diagnostic(ErrorKindView::TypeMismatch { expected, found }, None)
}

/// The diagnostic for an operator applied to operands it does not take.
pub open spec fn invalid_operation(op: Seq<char>, types: Seq<char>) -> ErrorView {
    diagnostic(ErrorKindView::InvalidOperation { op, types }, None)
}

/// The views of a list of diagnostics, in order.
pub open spec fn error_views(errors: Seq<SemanticError>) -> Seq<ErrorView> {
    Seq::new(errors.len(), |i: int| errors[i]@)
}

impl Clone for SemanticError {
    fn clone(&self) -> (r: SemanticError)
        ensures
            r@ == self@,
    {
        SemanticError {
            kind: self.kind.clone(),
            message: self.message.clone(),
            token: match &self.token {
                Some(t) => Some(t.clone()),
                None => None,
            },
        }
    }
}

impl SemanticError {
    /// Makes the diagnostic of a kind, with the sentence that belongs to it.
    pub fn new(kind: SemanticErrorKind, token: Option<Token>) -> (r: SemanticError)
        ensures
            r@ == diagnostic(kind@, token_option_view(token)),
    {
        proof {
            reveal(message_of);
        }
        let message = match &kind {
            SemanticErrorKind::UndeclaredIdentifier(name) => join3(
                "Undeclared identifier '",
                name.as_str(),
                "'",
            ),
            SemanticErrorKind::RedeclaredIdentifier(name) => join3(
                "Identifier '",
                name.as_str(),
                "' is already declared in this scope",
            ),
            SemanticErrorKind::TypeMismatch { expected, found } => {
                let mut s = join3("Type mismatch: expected ", expected.as_str(), ", found ");
                s.append(found.as_str());
                s
            },
            SemanticErrorKind::InvalidOperation { op, types } => {
                let mut s = join3("Invalid operation '", op.as_str(), "' for types ");
                s.append(types.as_str());
                s
            },
            SemanticErrorKind::WrongParameterCount { expected, found } => {
                let mut s = join3(
                    "Wrong number of parameters: expected ",
                    decimal(*expected).as_str(),
                    ", found ",
                );
                s.append(decimal(*found).as_str());
                s
            },
            SemanticErrorKind::NotCallable(name) => join3(
                "'",
                name.as_str(),
                "' is not a procedure or function",
            ),
            SemanticErrorKind::NotAssignable(name) => join3(
                "Cannot assign to '",
                name.as_str(),
                "'",
            ),
            SemanticErrorKind::InvalidArrayBounds => {
                "Invalid array bounds: lower bound must be less than or equal to upper bound".to_string()
            },
            SemanticErrorKind::InvalidLoopVariable => {
                "Loop variable must be of integer type".to_string()
            },
            SemanticErrorKind::ConditionNotBoolean => {
                "Condition must be of boolean type".to_string()
            },
        };
        SemanticError { kind, message, token }
    }

    /// A name was used that no declaration in scope introduces.
    pub fn undeclared(name: String, token: Option<Token>) -> (r: SemanticError)
        ensures
            r@ == diagnostic(ErrorKindView::UndeclaredIdentifier(name@), token_option_view(token)),
    {
        Self::new(SemanticErrorKind::UndeclaredIdentifier(name), token)
    }

    /// A name was declared a second time in the same block.
    pub fn redeclared(name: String, token: Option<Token>) -> (r: SemanticError)
        ensures
            r@ == diagnostic(ErrorKindView::RedeclaredIdentifier(name@), token_option_view(token)),
    {
        Self::new(SemanticErrorKind::RedeclaredIdentifier(name), token)
    }

    /// A value of one type stands where another type is asked for.
    pub fn type_mismatch(expected: String, found: String, token: Option<Token>) -> (r:
        SemanticError)
        ensures
            r@ == diagnostic(
                ErrorKindView::TypeMismatch { expected: expected@, found: found@ },
                token_option_view(token),
            ),
    {
        Self::new(SemanticErrorKind::TypeMismatch { expected, found }, token)
    }

    /// An operator was applied to operands of types it does not take.
    pub fn invalid_operation(op: String, types: String, token: Option<Token>) -> (r: SemanticError)
        ensures
            r@ == diagnostic(
                ErrorKindView::InvalidOperation { op: op@, types: types@ },
                token_option_view(token),
            ),
    {
        Self::new(SemanticErrorKind::InvalidOperation { op, types }, token)
    }
}

} // verus!
