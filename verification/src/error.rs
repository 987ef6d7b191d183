use vstd::prelude::*;

verus! {

/// An error of the HyperTide server, with the message shown to the caller.
#[derive(Debug, Clone, PartialEq, Eq)]
pub enum HyperTideError {
    Authentication(String),
    PermissionDenied(String),
    Conflict(String),
    NotFound(String),
    Persistence(String),
    Configuration(String),
    Validation(String),
    Internal(String),
}

/// The machine-readable code of each kind of error.
pub open spec fn error_code_spec(e: HyperTideError) -> Seq<char> {
    match e {
        HyperTideError::Authentication(_) => "authentication_failed"@,
        HyperTideError::PermissionDenied(_) => "permission_denied"@,
        HyperTideError::Conflict(_) => "conflict"@,
        HyperTideError::NotFound(_) => "not_found"@,
        HyperTideError::Persistence(_) => "persistence_failed"@,
        HyperTideError::Configuration(_) => "configuration_error"@,
        HyperTideError::Validation(_) => "validation_error"@,
        HyperTideError::Internal(_) => "internal_error"@,
    }
}

/// The message that an error carries, whatever its kind.
pub open spec fn error_message_spec(e: HyperTideError) -> Seq<char> {
    match e {
        HyperTideError::Authentication(m) => m@,
        HyperTideError::PermissionDenied(m) => m@,
        HyperTideError::Conflict(m) => m@,
        HyperTideError::NotFound(m) => m@,
        HyperTideError::Persistence(m) => m@,
        HyperTideError::Configuration(m) => m@,
        HyperTideError::Validation(m) => m@,
        HyperTideError::Internal(m) => m@,
    }
}

impl HyperTideError {
    pub fn code(&self) -> (r: &'static str)
        ensures
            r@ == error_code_spec(*self),
    {
        proof {
            reveal_strlit("authentication_failed");
            reveal_strlit("permission_denied");
            reveal_strlit("conflict");
            reveal_strlit("not_found");
            reveal_strlit("persistence_failed");
            reveal_strlit("configuration_error");
            reveal_strlit("validation_error");
            reveal_strlit("internal_error");
        }
        match self {
            HyperTideError::Authentication(_) => "authentication_failed",
            HyperTideError::PermissionDenied(_) => "permission_denied",
            HyperTideError::Conflict(_) => "conflict",
            HyperTideError::NotFound(_) => "not_found",
            HyperTideError::Persistence(_) => "persistence_failed",
            HyperTideError::Configuration(_) => "configuration_error",
            HyperTideError::Validation(_) => "validation_error",
            HyperTideError::Internal(_) => "internal_error",
        }
    }

    pub fn message(&self) -> (r: &str)
        ensures
            r@ == error_message_spec(*self),
    {
        match self {
            HyperTideError::Authentication(message)
            | HyperTideError::PermissionDenied(message)
            | HyperTideError::Conflict(message)
            | HyperTideError::NotFound(message)
            | HyperTideError::Persistence(message)
            | HyperTideError::Configuration(message)
            | HyperTideError::Validation(message)
            | HyperTideError::Internal(message) => message.as_str(),
        }
    }
}

} // verus!
