//! The error every operation of the catalog returns.

use vstd::prelude::*;

verus! {

/// The classes of failure a caller can tell apart.
#[derive(Debug, Clone, Copy, PartialEq, Eq, Structural)]
pub enum ErrorKind {
    /// Malformed identifier, forbidden property, empty view, invalid location.
    BadRequest,
    /// Missing namespace, table, view or warehouse.
    NotFound,
    /// Name collision or optimistic commit mismatch.
    Conflict,
    /// Denied by the authorizer.
    Forbidden,
    /// Missing or invalid credential.
    Unauthenticated,
    /// Operation attempted on a warehouse that is not active.
    WarehouseInactive,
    /// Object store failure.
    StorageError,
    /// The secret store could not resolve a secret.
    SecretError,
    /// Unexpected invariant violation.
    Internal,
}

impl ErrorKind {
    /// The HTTP status a failure of this kind is answered with.
    pub open spec fn status(self) -> u16 {
        match self {
            ErrorKind::BadRequest => 400,
            ErrorKind::Unauthenticated => 401,
            ErrorKind::Forbidden => 403,
            ErrorKind::NotFound => 404,
            ErrorKind::WarehouseInactive => 404,
            ErrorKind::Conflict => 409,
            ErrorKind::StorageError => 500,
            ErrorKind::SecretError => 500,
            ErrorKind::Internal => 500,
        }
    }

    /// The HTTP status a failure of this kind is answered with.
    pub fn code(self) -> (code: u16)
        ensures
            code == self.status(),
    {
        match self {
            ErrorKind::BadRequest => 400,
            ErrorKind::Unauthenticated => 401,
            ErrorKind::Forbidden => 403,
            ErrorKind::NotFound => 404,
            ErrorKind::WarehouseInactive => 404,
            ErrorKind::Conflict => 409,
            ErrorKind::StorageError => 500,
            ErrorKind::SecretError => 500,
            ErrorKind::Internal => 500,
        }
    }

    /// The stable name of the kind, as it appears in an error body.
    pub fn type_str(self) -> (name: &'static str)
        ensures
            name@ == self.kind_name(),
    {
        match self {
            ErrorKind::BadRequest => "BadRequest",
            ErrorKind::NotFound => "NotFound",
            ErrorKind::Conflict => "Conflict",
            ErrorKind::Forbidden => "Forbidden",
            ErrorKind::Unauthenticated => "Unauthenticated",
            ErrorKind::WarehouseInactive => "WarehouseInactive",
            ErrorKind::StorageError => "StorageError",
            ErrorKind::SecretError => "SecretError",
            ErrorKind::Internal => "Internal",
        }
    }

    /// The stable name of the kind.
    pub open spec fn kind_name(self) -> Seq<char> {
        match self {
            ErrorKind::BadRequest => "BadRequest"@,
            ErrorKind::NotFound => "NotFound"@,
            ErrorKind::Conflict => "Conflict"@,
            ErrorKind::Forbidden => "Forbidden"@,
            ErrorKind::Unauthenticated => "Unauthenticated"@,
            ErrorKind::WarehouseInactive => "WarehouseInactive"@,
            ErrorKind::StorageError => "StorageError"@,
            ErrorKind::SecretError => "SecretError"@,
            ErrorKind::Internal => "Internal"@,
        }
    }
}

/// A structured error: its class, the HTTP status, a machine-readable reason
/// and a message for people.
#[derive(Debug, Clone)]
pub struct ErrorModel {
    pub kind: ErrorKind,
    pub code: u16,
    pub reason: String,
    pub message: String,
}

/// What an [`ErrorModel`] holds, as plain values.
pub struct ErrorModelView {
    pub kind: ErrorKind,
    pub code: u16,
    pub reason: Seq<char>,
    pub message: Seq<char>,
}

impl View for ErrorModel {
    type V = ErrorModelView;

    open spec fn view(&self) -> ErrorModelView {
        ErrorModelView {
            kind: self.kind,
            code: self.code,
            reason: self.reason@,
            message: self.message@,
        }
    }
}

/// The error of the given kind with its status, reason and message.
pub open spec fn error_of(kind: ErrorKind, message: Seq<char>, reason: Seq<char>) -> ErrorModelView {
    ErrorModelView { kind, code: kind.status(), reason, message }
}

impl ErrorModel {
    /// An error of `kind`, answered with the status of that kind.
    pub fn new(kind: ErrorKind, message: &str, reason: &str) -> (e: Self)
        ensures
            e@ == error_of(kind, message@, reason@),
    {
        ErrorModel { kind, code: kind.code(), reason: reason.to_owned(), message: message.to_owned() }
    }

    /// The error for a request that cannot be served as it is.
    pub fn bad_request(message: &str, reason: &str) -> (e: Self)
        ensures
            e@ == error_of(ErrorKind::BadRequest, message@, reason@),
    {
        Self::new(ErrorKind::BadRequest, message, reason)
    }

    /// The error for something that does not exist.
    pub fn not_found(message: &str, reason: &str) -> (e: Self)
        ensures
            e@ == error_of(ErrorKind::NotFound, message@, reason@),
    {
        Self::new(ErrorKind::NotFound, message, reason)
    }

    /// The error for a name collision or a commit that came too late.
    pub fn conflict(message: &str, reason: &str) -> (e: Self)
        ensures
            e@ == error_of(ErrorKind::Conflict, message@, reason@),
    {
        Self::new(ErrorKind::Conflict, message, reason)
    }

    /// The error for an invariant that does not hold.
    pub fn internal(message: &str, reason: &str) -> (e: Self)
        ensures
            e@ == error_of(ErrorKind::Internal, message@, reason@),
    {
        Self::new(ErrorKind::Internal, message, reason)
    }

    /// A copy of this error.
    pub fn duplicate(&self) -> (e: Self)
        ensures
            e@ == self@,
    {
        ErrorModel {
            kind: self.kind,
            code: self.code,
            reason: self.reason.clone(),
            message: self.message.clone(),
        }
    }
}

} // verus!
