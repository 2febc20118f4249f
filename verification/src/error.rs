//! What can go wrong when enum types are collected, looked up or read back.
use vstd::prelude::*;

use crate::text::{optional_text, texts};

verus! {

/// The error that the `ron` crate gives for a text that it cannot read.
#[verifier::external_type_specification]
#[verifier::external_body]
pub struct ExSpannedError(ron::error::SpannedError);

/// The error that std gives for a failed file operation.
#[verifier::external_type_specification]
#[verifier::external_body]
pub struct ExIoError(std::io::Error);

/// Errors that can occur during parsing and processing of PostgreSQL enum types.
#[allow(inconsistent_fields)]
#[derive(Debug)]
pub enum PGEnumError {
    /// An enum type is duplicated within the same schema. This does not happen with valid SQL,
    /// but it can occur if someone edits the inputs or the RON representation by hand.
    DuplicatedType { schema: String, enum_name: String },
    /// A value is duplicated within an enum. This does not happen with valid SQL, but it can
    /// occur if someone edits the inputs or the RON representation by hand.
    DuplicatedValue { schema: String, enum_name: String, value: String },
    /// The name of an enum type is not unique within the same `Database`: the type is defined
    /// in each of the listed schemas.
    EnumConflict { name: String, schemas: Vec<String> },
    /// An enum type is not found.
    EnumNotFound { name: String, schema: Option<String> },
    /// The RON representation cannot be parsed.
    InvalidRepresentation(ron::error::SpannedError),
    /// A file operation failed.
    IOError(std::io::Error),
    /// The SQL cannot be parsed; holds the parser's message.
    SQLParseError(String),
    /// The RON representation has an unknown or unsupported version number.
    UnknownVersion(u32),
}

/// An error, with its strings as sequences of characters.
#[allow(inconsistent_fields)]
#[verifier::ext_equal]
pub enum ErrorView {
    DuplicatedType { schema: Seq<char>, enum_name: Seq<char> },
    DuplicatedValue { schema: Seq<char>, enum_name: Seq<char>, value: Seq<char> },
    EnumConflict { name: Seq<char>, schemas: Seq<Seq<char>> },
    EnumNotFound { name: Seq<char>, schema: Option<Seq<char>> },
    InvalidRepresentation(ron::error::SpannedError),
    IOError(std::io::Error),
    SQLParseError(Seq<char>),
    UnknownVersion(u32),
}

impl View for PGEnumError {
    type V = ErrorView;

    open spec fn view(&self) -> ErrorView {
        match *self {
            PGEnumError::DuplicatedType { schema, enum_name } => ErrorView::DuplicatedType {
                schema: schema@,
                enum_name: enum_name@,
            },
            PGEnumError::DuplicatedValue { schema, enum_name, value } => {
                ErrorView::DuplicatedValue {
                    schema: schema@,
                    enum_name: enum_name@,
                    value: value@,
                }
            },
            PGEnumError::EnumConflict { name, schemas } => ErrorView::EnumConflict {
                name: name@,
                schemas: texts(schemas@),
            },
            PGEnumError::EnumNotFound { name, schema } => ErrorView::EnumNotFound {
                name: name@,
                schema: optional_text(schema),
            },
            PGEnumError::InvalidRepresentation(e) => ErrorView::InvalidRepresentation(e),
            PGEnumError::IOError(e) => ErrorView::IOError(e),
            PGEnumError::SQLParseError(message) => ErrorView::SQLParseError(message@),
            PGEnumError::UnknownVersion(version) => ErrorView::UnknownVersion(version),
        }
    }
}

/// The outcome of a fallible operation, by view.
pub open spec fn outcome<T: View>(r: Result<T, PGEnumError>) -> Result<T::V, ErrorView> {
    match r {
        Ok(value) => Ok(value@),
        Err(e) => Err(e@),
    }
}

} // verus!
