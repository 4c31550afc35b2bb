//! The error type shared by every fallible operation of the library.

use vstd::prelude::*;

verus! {

/// Which of the five error conditions an [`AppError`] reports.
#[derive(Clone, Copy, Debug, PartialEq, Eq, Structural)]
pub enum ErrorKind {
    /// The store failed.
    Database,
    /// The caller supplied something malformed; correctable by the user.
    InvalidInput,
    /// A collaborator (hashing, token signing) failed.
    InternalError,
    /// An upload was rejected for its type, size or shape.
    ValidationError,
    /// Anything else that went wrong unexpectedly.
    Internal,
}

/// An error of the service. Every variant carries the text that explains it;
/// for `Database` that is the store's own description of the failure.
#[derive(Debug)]
pub enum AppError {
    Database(String),
    InvalidInput(String),
    InternalError(String),
    ValidationError(String),
    Internal(String),
}

/// HTTP status of a request the client got wrong.
pub const STATUS_BAD_REQUEST: u16 = 400;

/// HTTP status of a failure on the server's side.
pub const STATUS_INTERNAL_SERVER_ERROR: u16 = 500;

impl AppError {
    /// The condition this error reports.
    pub open spec fn kind(&self) -> ErrorKind {
        match self {
            AppError::Database(_) => ErrorKind::Database,
            AppError::InvalidInput(_) => ErrorKind::InvalidInput,
            AppError::InternalError(_) => ErrorKind::InternalError,
            AppError::ValidationError(_) => ErrorKind::ValidationError,
            AppError::Internal(_) => ErrorKind::Internal,
        }
    }

    /// The text carried by this error.
    pub open spec fn message(&self) -> Seq<char> {
        match self {
            AppError::Database(m) => m@,
            AppError::InvalidInput(m) => m@,
            AppError::InternalError(m) => m@,
            AppError::ValidationError(m) => m@,
            AppError::Internal(m) => m@,
        }
    }

    /// True when this error is of kind `kind` and carries exactly `message`.
    pub open spec fn reports(&self, kind: ErrorKind, message: Seq<char>) -> bool {
        self.kind() == kind && self.message() == message
    }

    /// The status a response for this error carries: 400 for what the user
    /// can correct, 500 for everything else.
    pub open spec fn spec_status(kind: ErrorKind) -> u16 {
        match kind {
            ErrorKind::InvalidInput | ErrorKind::ValidationError => STATUS_BAD_REQUEST,
            _ => STATUS_INTERNAL_SERVER_ERROR,
        }
    }

    /// The text shown to the client: the carried message, except that the
    /// detail of a store failure is withheld.
    pub open spec fn spec_public_message(&self) -> Seq<char> {
        match self {
            AppError::Database(_) => "Database error"@,
            _ => self.message(),
        }
    }

    /// The prefix that the full description of an error of kind `kind` starts with.
    pub open spec fn spec_prefix(kind: ErrorKind) -> Seq<char> {
        match kind {
            ErrorKind::Database => "Database error: "@,
            ErrorKind::InvalidInput => "Invalid input: "@,
            ErrorKind::InternalError => "Internal error: "@,
            ErrorKind::ValidationError => "Validation error: "@,
            ErrorKind::Internal => "Internal server error: "@,
        }
    }

    /// Tells which condition this error reports.
    pub fn error_kind(&self) -> (k: ErrorKind)
        ensures
            k == self.kind(),
    {
        match self {
            AppError::Database(_) => ErrorKind::Database,
            AppError::InvalidInput(_) => ErrorKind::InvalidInput,
            AppError::InternalError(_) => ErrorKind::InternalError,
            AppError::ValidationError(_) => ErrorKind::ValidationError,
            AppError::Internal(_) => ErrorKind::Internal,
        }
    }

    /// The status of the response for this error; see [`AppError::spec_status`].
    pub fn status_code(&self) -> (status: u16)
        ensures
            status == Self::spec_status(self.kind()),
            status == STATUS_BAD_REQUEST || status == STATUS_INTERNAL_SERVER_ERROR,
    {
        match self {
            AppError::InvalidInput(_) | AppError::ValidationError(_) => STATUS_BAD_REQUEST,
            _ => STATUS_INTERNAL_SERVER_ERROR,
        }
    }

    /// The text shown to the client; see [`AppError::spec_public_message`].
    pub fn public_message(&self) -> (text: String)
        ensures
            text@ == self.spec_public_message(),
    {
        match self {
            AppError::Database(_) => "Database error".to_owned(),
            AppError::InvalidInput(m) => m.clone(),
            AppError::InternalError(m) => m.clone(),
            AppError::ValidationError(m) => m.clone(),
            AppError::Internal(m) => m.clone(),
        }
    }

    /// The full description: the kind's prefix followed by the message.
    pub fn describe(&self) -> (text: String)
        ensures
            text@ == Self::spec_prefix(self.kind()) + self.message(),
    {
        let (prefix, m) = match self {
            AppError::Database(m) => ("Database error: ", m),
            AppError::InvalidInput(m) => ("Invalid input: ", m),
            AppError::InternalError(m) => ("Internal error: ", m),
            AppError::ValidationError(m) => ("Validation error: ", m),
            AppError::Internal(m) => ("Internal server error: ", m),
        };
        let mut text = prefix.to_owned();
        text.append(m.as_str());
        text
    }
}

} // verus!
