//! The errors of the service.
//!
//! Two of them arise while a request is served and are reported to the client;
//! the other two are configuration mistakes and stop the service from starting.

use crate::route::{method_name, Method};
use vstd::prelude::*;
use vstd::string::StringExecFns;

verus! {

/// What can go wrong in the service.
#[derive(Debug, PartialEq, Eq)]
pub enum DomainError {
    /// The host name that the operating system reports is not valid text.
    HostnameDecodeError { message: String },
    /// The host does not report its uptime.
    UptimeUnavailableError,
    /// Two registered routes share a path and a method but disagree on the
    /// shape of the response.
    SchemaConflictError { path: String, method: Method },
    /// A route was registered after the API document had been built.
    RegistrationAfterFreezeError,
}

/// An error as a mathematical value.
pub enum ErrorView {
    HostnameDecodeError { message: Seq<char> },
    UptimeUnavailableError,
    SchemaConflictError { path: Seq<char>, method: Method },
    RegistrationAfterFreezeError,
}

impl View for DomainError {
    type V = ErrorView;

    open spec fn view(&self) -> ErrorView {
        match self {
            DomainError::HostnameDecodeError { message } => ErrorView::HostnameDecodeError {
                message: message@,
            },
            DomainError::UptimeUnavailableError => ErrorView::UptimeUnavailableError,
            DomainError::SchemaConflictError { path, method } => ErrorView::SchemaConflictError {
                path: path@,
                method: *method,
            },
            DomainError::RegistrationAfterFreezeError => ErrorView::RegistrationAfterFreezeError,
        }
    }
}

/// The human-readable message of an error.
pub open spec fn error_message(error: ErrorView) -> Seq<char> {
    match error {
        ErrorView::HostnameDecodeError { message } => message,
        ErrorView::UptimeUnavailableError => "uptime is not available on this host"@,
        ErrorView::SchemaConflictError { path, method } => "conflicting response shapes for "@
            + method_name(method) + " "@ + path,
        ErrorView::RegistrationAfterFreezeError => "route registered after the API document was built"@,
    }
}

/// Whether an error is a configuration mistake, which stops the service from
/// starting, rather than a failure of one request.
pub open spec fn halts_startup(error: ErrorView) -> bool {
    error is SchemaConflictError || error is RegistrationAfterFreezeError
}

impl Clone for DomainError {
    fn clone(&self) -> (r: DomainError)
        ensures
            r@ == self@,
    {
        match self {
            DomainError::HostnameDecodeError { message } => DomainError::HostnameDecodeError {
                message: message.clone(),
            },
            DomainError::UptimeUnavailableError => DomainError::UptimeUnavailableError,
            DomainError::SchemaConflictError { path, method } => DomainError::SchemaConflictError {
                path: path.clone(),
                method: *method,
            },
            DomainError::RegistrationAfterFreezeError => DomainError::RegistrationAfterFreezeError,
        }
    }
}

impl DomainError {
    /// The human-readable message of the error.
    pub fn message(&self) -> (r: String)
        ensures
            r@ == error_message(self@),
    {
        match self {
            DomainError::HostnameDecodeError { message } => message.clone(),
            DomainError::UptimeUnavailableError => String::from_str(
                "uptime is not available on this host",
            ),
            DomainError::SchemaConflictError { path, method } => {
                let mut text = String::from_str("conflicting response shapes for ");
                text.append(method.name());
                text.append(" ");
                text.append(path.as_str());
                text
            },
            DomainError::RegistrationAfterFreezeError => String::from_str(
                "route registered after the API document was built",
            ),
        }
    }

    /// Whether the error is a configuration mistake, which stops the service
    /// from starting, rather than a failure of one request.
    pub fn halts_startup(&self) -> (r: bool)
        ensures
            r == halts_startup(self@),
    {
        match self {
            DomainError::SchemaConflictError { .. } => true,
            DomainError::RegistrationAfterFreezeError => true,
            _ => false,
        }
    }
}

} // verus!
