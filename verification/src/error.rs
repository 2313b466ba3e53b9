//! The error taxonomy shared by the whole library: domain-rule violations,
//! storage-layer failures, and configuration problems.

use vstd::prelude::*;

verus! {

/// An error surfaced by the services or the repositories.
///
/// `DomainError` marks a business-rule violation (an empty name, a missing
/// referenced aggregate, an invalid numeric input); `InfrastructureError`
/// marks a storage-layer failure (connection, transaction, constraint);
/// `ConfigurationError` marks a problem with the application configuration.
#[derive(Debug)]
pub enum Error {
    DomainError(String),
    InfrastructureError(String),
    ConfigurationError(String),
}

impl Error {
    /// True exactly on the `DomainError` variant.
    pub fn is_domain(&self) -> (r: bool)
        ensures
            r == (self is DomainError),
    {
        match self {
            Error::DomainError(_) => true,
            _ => false,
        }
    }

    /// True exactly on the `InfrastructureError` variant.
    pub fn is_infrastructure(&self) -> (r: bool)
        ensures
            r == (self is InfrastructureError),
    {
        match self {
            Error::InfrastructureError(_) => true,
            _ => false,
        }
    }

    /// The human-readable message carried by the error.
    pub fn message(&self) -> (r: &String)
        ensures
            r@ == self.message_view(),
    {
        match self {
            Error::DomainError(m) => m,
            Error::InfrastructureError(m) => m,
            Error::ConfigurationError(m) => m,
        }
    }

    /// The message carried by the error, as a sequence of characters.
    pub open spec fn message_view(&self) -> Seq<char> {
        match self {
            Error::DomainError(m) => m@,
            Error::InfrastructureError(m) => m@,
            Error::ConfigurationError(m) => m@,
        }
    }
}

} // verus!
