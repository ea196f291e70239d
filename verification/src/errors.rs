//! The error taxonomy of the sign-in flow and the credential store.
//!
//! Every error is terminal for the current operation: nothing is retried
//! automatically.  The only resilience mechanism is the credential store's
//! reuse path, which avoids re-running the flow when a valid cached record
//! exists.

use vstd::prelude::*;

verus! {

/// What can go wrong while completing a sign-in or consulting the
/// credential cache.
#[derive(Debug, Clone, PartialEq, Eq)]
pub enum AuthError {
    /// The configured redirect URL holds no extractable `:port/` component.
    ConfigError,
    /// The loopback port could not be bound (raised by the I/O shell).
    BindError,
    /// An inbound connection could not be read as expected.
    ReadError,
    /// The callback string did not contain exactly three `key=value`
    /// assignments.
    InvalidCallback,
    /// The remote rejected the code/state pair; carries the response body.
    ExchangeError(String),
    /// The credential file was unreadable or unwritable as structured data
    /// (distinct from simple absence, which is not an error).
    StorageError,
}

impl AuthError {
    /// A short human-readable description, for the I/O shell to report.
    pub fn describe(&self) -> (r: &'static str)
        ensures
            r@.len() > 0,
            r@ == match self {
                AuthError::ConfigError => "unable to parse port from address"@,
                AuthError::BindError => "unable to bind the loopback port"@,
                AuthError::ReadError => "unable to read the inbound connection"@,
                AuthError::InvalidCallback => "invalid callback URL"@,
                AuthError::ExchangeError(_) => "authentication failed"@,
                AuthError::StorageError => "unable to read or write the token file"@,
            },
    {
        let d = match self {
            AuthError::ConfigError => "unable to parse port from address",
            AuthError::BindError => "unable to bind the loopback port",
            AuthError::ReadError => "unable to read the inbound connection",
            AuthError::InvalidCallback => "invalid callback URL",
            AuthError::ExchangeError(_) => "authentication failed",
            AuthError::StorageError => "unable to read or write the token file",
        };
        proof {
            reveal_strlit("unable to parse port from address");
            reveal_strlit("unable to bind the loopback port");
            reveal_strlit("unable to read the inbound connection");
            reveal_strlit("invalid callback URL");
            reveal_strlit("authentication failed");
            reveal_strlit("unable to read or write the token file");
        }
        d
    }
}

} // verus!
