use vstd::prelude::*;
use crate::parser::Token;
use crate::project::{Attribute, AttributeView};

verus! {

/// Everything that can go wrong between a source text and a resolved project.
#[derive(Debug, PartialEq, Eq)]
pub enum CirnoError {
    ArgumentError(u16, usize),
    InvalidAttribute(String),
    InvalidAttributeForObject(Attribute, String),
    InvalidColorAttribute(String),
    InvalidCommand(String),
    InvalidFile(String),
    InvalidFiletype(String),
    InvalidObjectType(String),
    InvalidSearch,
    InvalidValueAttribute(String),
    InvalidWire,
    InvalidValueForAttribute(String, String),
    MetaObjectError,
    MissingAttribute(String),
    NamelessInvalidValueForAttribute(String),
    NotFoundInStdlib(String),
    OpenCicNotImplemented,
    OutOfBounds,
    OutOfTokens(Token),
    OutOfTokensExpectedNumber,
    OverlappingRegion(usize, usize),
    NoResultsFound,
    TerminalTooSmall,
    TooManyRepetitions,
    TooManyWiresOfColor(String),
    UnexpectedToken(Token, Token),
    UnexpectedTokenExpectedNumber(Token),
    UnrecognizedToken,
}

/// The mathematical form of a `CirnoError`.
pub enum ErrorView {
    ArgumentError(u16, usize),
    InvalidAttribute(Seq<char>),
    InvalidAttributeForObject(AttributeView, Seq<char>),
    InvalidColorAttribute(Seq<char>),
    InvalidCommand(Seq<char>),
    InvalidFile(Seq<char>),
    InvalidFiletype(Seq<char>),
    InvalidObjectType(Seq<char>),
    InvalidSearch,
    InvalidValueAttribute(Seq<char>),
    InvalidWire,
    InvalidValueForAttribute(Seq<char>, Seq<char>),
    MetaObjectError,
    MissingAttribute(Seq<char>),
    NamelessInvalidValueForAttribute(Seq<char>),
    NotFoundInStdlib(Seq<char>),
    OpenCicNotImplemented,
    OutOfBounds,
    OutOfTokens(Token),
    OutOfTokensExpectedNumber,
    OverlappingRegion(usize, usize),
    NoResultsFound,
    TerminalTooSmall,
    TooManyRepetitions,
    TooManyWiresOfColor(Seq<char>),
    UnexpectedToken(Token, Token),
    UnexpectedTokenExpectedNumber(Token),
    UnrecognizedToken,
}

impl View for CirnoError {
    type V = ErrorView;

    open spec fn view(&self) -> ErrorView {
        match *self {
            CirnoError::ArgumentError(want, got) => ErrorView::ArgumentError(want, got),
            CirnoError::InvalidAttribute(a) => ErrorView::InvalidAttribute(a@),
            CirnoError::InvalidAttributeForObject(a, kind) => ErrorView::InvalidAttributeForObject(
                a@,
                kind@,
            ),
            CirnoError::InvalidColorAttribute(c) => ErrorView::InvalidColorAttribute(c@),
            CirnoError::InvalidCommand(c) => ErrorView::InvalidCommand(c@),
            CirnoError::InvalidFile(f) => ErrorView::InvalidFile(f@),
            CirnoError::InvalidFiletype(f) => ErrorView::InvalidFiletype(f@),
            CirnoError::InvalidObjectType(t) => ErrorView::InvalidObjectType(t@),
            CirnoError::InvalidSearch => ErrorView::InvalidSearch,
            CirnoError::InvalidValueAttribute(v) => ErrorView::InvalidValueAttribute(v@),
            CirnoError::InvalidWire => ErrorView::InvalidWire,
            CirnoError::InvalidValueForAttribute(v, a) => ErrorView::InvalidValueForAttribute(
                v@,
                a@,
            ),
            CirnoError::MetaObjectError => ErrorView::MetaObjectError,
            CirnoError::MissingAttribute(a) => ErrorView::MissingAttribute(a@),
            CirnoError::NamelessInvalidValueForAttribute(a) =>
                ErrorView::NamelessInvalidValueForAttribute(a@),
            CirnoError::NotFoundInStdlib(t) => ErrorView::NotFoundInStdlib(t@),
            CirnoError::OpenCicNotImplemented => ErrorView::OpenCicNotImplemented,
            CirnoError::OutOfBounds => ErrorView::OutOfBounds,
            CirnoError::OutOfTokens(t) => ErrorView::OutOfTokens(t),
            CirnoError::OutOfTokensExpectedNumber => ErrorView::OutOfTokensExpectedNumber,
            CirnoError::OverlappingRegion(i, j) => ErrorView::OverlappingRegion(i, j),
            CirnoError::NoResultsFound => ErrorView::NoResultsFound,
            CirnoError::TerminalTooSmall => ErrorView::TerminalTooSmall,
            CirnoError::TooManyRepetitions => ErrorView::TooManyRepetitions,
            CirnoError::TooManyWiresOfColor(c) => ErrorView::TooManyWiresOfColor(c@),
            CirnoError::UnexpectedToken(want, got) => ErrorView::UnexpectedToken(want, got),
            CirnoError::UnexpectedTokenExpectedNumber(got) =>
                ErrorView::UnexpectedTokenExpectedNumber(got),
            CirnoError::UnrecognizedToken => ErrorView::UnrecognizedToken,
        }
    }
}

} // verus!
