//! The error taxonomy of the directory and its mapping to status codes.

use vstd::prelude::*;

verus! {

/// How a remote authority failed to give a definitive answer.
#[derive(Clone, Copy, Debug, PartialEq, Eq, Structural)]
pub enum RemoteFailure {
    /// No answer came within the time allowed.
    Timeout,
    /// The remote authority could not be reached or refused the connection.
    Connection,
    /// The answer could not be understood.
    Protocol,
}

/// Why a directory operation failed.
#[derive(Clone, Copy, Debug, PartialEq, Eq, Structural)]
pub enum DirectoryError {
    /// The alias string is not of the form `#localpart:domain`.
    MalformedAlias,
    /// No record exists for the alias.
    NotFound,
    /// A record for the alias exists already.
    AliasAlreadyExists,
    /// The alias belongs to another authority, or the requester may not act on it.
    Forbidden,
    /// The remote authority gave no definitive answer.
    RemoteUnavailable(RemoteFailure),
    /// The persistence layer failed.
    StorageFailure,
}

impl DirectoryError {
    /// The HTTP status that stands for this error.
    pub open spec fn spec_status_code(self) -> u16 {
        match self {
            DirectoryError::MalformedAlias => 400,
            DirectoryError::Forbidden => 403,
            DirectoryError::NotFound => 404,
            DirectoryError::AliasAlreadyExists => 409,
            DirectoryError::StorageFailure => 500,
            DirectoryError::RemoteUnavailable(RemoteFailure::Timeout) => 504,
            DirectoryError::RemoteUnavailable(_) => 502,
        }
    }

    /// The machine-readable code that stands for this error.
    pub open spec fn spec_errcode(self) -> Seq<char> {
        match self {
            DirectoryError::MalformedAlias => "M_INVALID_PARAM"@,
            DirectoryError::Forbidden => "M_FORBIDDEN"@,
            DirectoryError::NotFound => "M_NOT_FOUND"@,
            _ => "M_UNKNOWN"@,
        }
    }

    /// A sentence that tells a person what went wrong.
    pub open spec fn spec_message(self) -> Seq<char> {
        match self {
            DirectoryError::MalformedAlias => "The room alias is malformed."@,
            DirectoryError::Forbidden => "The requester may not do this to the room alias."@,
            DirectoryError::NotFound => "The room alias was not found."@,
            DirectoryError::AliasAlreadyExists => "The room alias exists already."@,
            DirectoryError::StorageFailure => "The alias store failed."@,
            DirectoryError::RemoteUnavailable(RemoteFailure::Timeout) =>
                "The remote server did not answer in time."@,
            DirectoryError::RemoteUnavailable(RemoteFailure::Connection) =>
                "The remote server could not be reached."@,
            DirectoryError::RemoteUnavailable(RemoteFailure::Protocol) =>
                "The remote server gave an answer that could not be understood."@,
        }
    }

    /// The HTTP status that stands for this error.
    pub fn status_code(&self) -> (code: u16)
        ensures
            code == self.spec_status_code(),
    {
        match self {
            DirectoryError::MalformedAlias => 400,
            DirectoryError::Forbidden => 403,
            DirectoryError::NotFound => 404,
            DirectoryError::AliasAlreadyExists => 409,
            DirectoryError::StorageFailure => 500,
            DirectoryError::RemoteUnavailable(RemoteFailure::Timeout) => 504,
            DirectoryError::RemoteUnavailable(_) => 502,
        }
    }

    /// The machine-readable code that stands for this error.
    pub fn errcode(&self) -> (code: &'static str)
        ensures
            code@ == self.spec_errcode(),
    {
        match self {
            DirectoryError::MalformedAlias => "M_INVALID_PARAM",
            DirectoryError::Forbidden => "M_FORBIDDEN",
            DirectoryError::NotFound => "M_NOT_FOUND",
            _ => "M_UNKNOWN",
        }
    }

    /// A sentence that tells a person what went wrong.
    pub fn message(&self) -> (text: &'static str)
        ensures
            text@ == self.spec_message(),
    {
        match self {
            DirectoryError::MalformedAlias => "The room alias is malformed.",
            DirectoryError::Forbidden => "The requester may not do this to the room alias.",
            DirectoryError::NotFound => "The room alias was not found.",
            DirectoryError::AliasAlreadyExists => "The room alias exists already.",
            DirectoryError::StorageFailure => "The alias store failed.",
            DirectoryError::RemoteUnavailable(RemoteFailure::Timeout) =>
                "The remote server did not answer in time.",
            DirectoryError::RemoteUnavailable(RemoteFailure::Connection) =>
                "The remote server could not be reached.",
            DirectoryError::RemoteUnavailable(RemoteFailure::Protocol) =>
                "The remote server gave an answer that could not be understood.",
        }
    }
}

} // verus!
