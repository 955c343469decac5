use vstd::prelude::*;

verus! {

/// Failure of path-expression parsing.  The whole input is accepted or
/// rejected as one unit, so a single variant carries no position.
#[derive(Debug, Eq, PartialEq, Clone)]
pub enum TomlPathError {
    UnableToParse,
}

impl TomlPathError {
    /// Human-readable description of the failure.
    pub fn message(&self) -> (r: String)
        ensures
            r@ == "Unable to parse input str"@,
    {
        String::from_str("Unable to parse input str")
    }
}

/// Failure while applying a parsed path to a document tree.  The first
/// failing step aborts the whole evaluation.
#[derive(Debug, PartialEq, Eq, Clone)]
pub enum TraverseError {
    /// The path continues past a scalar leaf.
    LeafOverrun,
    /// The operation kind does not fit the current node kind.
    TypeMismatch,
    /// A table lookup did not find this key.
    KeyNotFound(String),
    /// A resolved ordinal lies outside the addressed sequence.  The
    /// ordinal is kept signed: a negative offset whose magnitude exceeds
    /// the length resolves below zero and is reported as it is.
    IndexOutOfRange { ordinal: i128, length: usize },
    /// A range whose upper bound precedes its lower bound.
    InvertedRange { start: isize, end: isize },
}

/// Model of a traversal failure.
#[verifier::ext_equal]
pub enum ErrV {
    LeafOverrun,
    TypeMismatch,
    KeyNotFound(Seq<char>),
    IndexOutOfRange { ordinal: int, length: int },
    InvertedRange { start: int, end: int },
}

impl View for TraverseError {
    type V = ErrV;

    open spec fn view(&self) -> ErrV {
        match self {
            TraverseError::LeafOverrun => ErrV::LeafOverrun,
            TraverseError::TypeMismatch => ErrV::TypeMismatch,
            TraverseError::KeyNotFound(k) => ErrV::KeyNotFound(k@),
            TraverseError::IndexOutOfRange { ordinal, length } => ErrV::IndexOutOfRange {
                ordinal: *ordinal as int,
                length: *length as int,
            },
            TraverseError::InvertedRange { start, end } => ErrV::InvertedRange {
                start: *start as int,
                end: *end as int,
            },
        }
    }
}

} // verus!
