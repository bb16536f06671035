//! The error taxonomy of a parse, and its mathematical model.
use vstd::prelude::*;

verus! {

/// What went wrong at the stream boundary.
#[derive(Clone, Copy, Debug, PartialEq, Eq, Structural)]
pub enum IoErrorKind {
    /// Fewer bytes were left than a read asked for.
    UnexpectedEof,
    /// A seek would have moved before the start of the stream, or past the
    /// largest representable position.
    InvalidSeek,
}

/// A failure while parsing the fields of one structure.
#[derive(Clone, Debug)]
pub enum FieldError {
    BadMagic { expected: Vec<u8>, actual: Vec<u8>, position: u64 },
    /// `field` names the field whose assertion failed; `message` is the custom
    /// text the schema supplied, if any.
    AssertionFailed { position: u64, field: String, message: Option<String> },
    Io { kind: IoErrorKind, position: u64 },
    Conversion { position: u64, cause: ConversionCause },
}

/// Why a fallible transform refused a value.
#[derive(Clone, Copy, Debug, PartialEq, Eq, Structural)]
pub enum ConversionCause {
    /// The value was smaller than the amount to subtract from it.
    Underflow { value: u64, amount: u64 },
}

/// The model of a `FieldError`.
pub enum SpecFieldError {
    BadMagic { expected: Seq<u8>, actual: Seq<u8>, position: int },
    AssertionFailed { position: int, field: Seq<char>, message: Option<Seq<char>> },
    Io { kind: IoErrorKind, position: int },
    Conversion { position: int, cause: ConversionCause },
}

pub open spec fn opt_str_view(s: Option<String>) -> Option<Seq<char>> {
    match s {
        Some(t) => Some(t@),
        None => None,
    }
}

impl View for FieldError {
    type V = SpecFieldError;

    open spec fn view(&self) -> SpecFieldError {
        match self {
            FieldError::BadMagic { expected, actual, position } => SpecFieldError::BadMagic {
                expected: expected@,
                actual: actual@,
                position: *position as int,
            },
            FieldError::AssertionFailed { position, field, message } =>
                SpecFieldError::AssertionFailed {
                position: *position as int,
                field: field@,
                message: opt_str_view(*message),
            },
            FieldError::Io { kind, position } => SpecFieldError::Io {
                kind: *kind,
                position: *position as int,
            },
            FieldError::Conversion { position, cause } => SpecFieldError::Conversion {
                position: *position as int,
                cause: *cause,
            },
        }
    }
}

impl FieldError {
    /// The stream position at which the failure was detected.
    pub fn position(&self) -> (r: u64)
        ensures
            r as int == spec_error_position(self@),
    {
        match self {
            FieldError::BadMagic { position, .. } => *position,
            FieldError::AssertionFailed { position, .. } => *position,
            FieldError::Io { position, .. } => *position,
            FieldError::Conversion { position, .. } => *position,
        }
    }
}

pub open spec fn spec_error_position(e: SpecFieldError) -> int {
    match e {
        SpecFieldError::BadMagic { position, .. } => position,
        SpecFieldError::AssertionFailed { position, .. } => position,
        SpecFieldError::Io { position, .. } => position,
        SpecFieldError::Conversion { position, .. } => position,
    }
}

/// One failed trial of a variant: the variant's name and why it did not match.
#[derive(Clone, Debug)]
pub struct VariantAttempt {
    pub variant: String,
    pub error: FieldError,
}

/// A failure of a whole parse: one of a structure's fields failed, or no
/// variant of a sum type matched.
#[derive(Clone, Debug)]
pub enum ParseError {
    Field(FieldError),
    EnumNoVariantMatched { attempts: Vec<VariantAttempt>, position: u64 },
}

/// The model of a `ParseError`.
pub enum SpecParseError {
    Field(SpecFieldError),
    EnumNoVariantMatched { attempts: Seq<(Seq<char>, SpecFieldError)>, position: int },
}

pub open spec fn attempt_view(a: VariantAttempt) -> (Seq<char>, SpecFieldError) {
    (a.variant@, a.error@)
}

impl View for ParseError {
    type V = SpecParseError;

    open spec fn view(&self) -> SpecParseError {
        match self {
            ParseError::Field(e) => SpecParseError::Field(e@),
            ParseError::EnumNoVariantMatched { attempts, position } =>
                SpecParseError::EnumNoVariantMatched {
                attempts: attempts@.map_values(|a: VariantAttempt| attempt_view(a)),
                position: *position as int,
            },
        }
    }
}

} // verus!
