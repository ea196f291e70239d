//! The request and response shapes exchanged with the remote service
//! during sign-in and notification setup.
//!
//! These are fixed external contracts: the I/O shell serialises them for
//! the wire.  The constructors pin down exactly how the flow fills them.

use vstd::prelude::*;

use crate::callback::AuthCode;

verus! {

/// The payload of the prepare-sign-in request.
#[derive(Debug, Clone, PartialEq, Eq)]
pub struct AuthRequest {
    pub authentication_service_kind: String,
    pub client_id: String,
    pub client_secret: String,
    pub tenant_id: String,
    pub redirect_url: String,
}

/// What the prepare-sign-in endpoint returns: where to send the browser,
/// and an identifier for this sign-in attempt.
#[derive(Debug, Clone, PartialEq, Eq)]
pub struct AuthResponse {
    pub sign_in_url: String,
    pub request_id: String,
}

/// The payload of the complete-sign-in request: the captured authorization
/// code and state token.
#[derive(Debug, Clone, PartialEq, Eq)]
pub struct CompleteRequest {
    pub code: String,
    pub state: String,
}

/// What the complete-sign-in endpoint returns on success.
#[derive(Debug, Clone, PartialEq, Eq)]
pub struct CompleteResponse {
    pub request_id: String,
    pub user_id: String,
}

/// The notification settings written after a completed sign-in.
#[derive(Debug, Clone, PartialEq, Eq)]
pub struct NotificationData {
    pub enable_notification: bool,
    pub authentication_type: String,
    pub use_authentication: bool,
    pub username: String,
    pub use_ssl: bool,
    pub from: String,
    pub to: String,
    pub subject: String,
    pub user_id: String,
    pub request_id: String,
}

/// What the notification-settings endpoint returns.
#[derive(Debug, Clone, PartialEq, Eq)]
pub struct NotificationResponse {
    pub message: String,
    pub error_code: String,
}

impl AuthRequest {
    /// The prepare-sign-in payload for the one authentication service this
    /// tool drives.
    pub fn new(
        tenant_id: String,
        client_id: String,
        client_secret: String,
        redirect_url: String,
    ) -> (r: AuthRequest)
        ensures
            r.authentication_service_kind@ == "Microsoft365"@,
            r.tenant_id@ == tenant_id@,
            r.client_id@ == client_id@,
            r.client_secret@ == client_secret@,
            r.redirect_url@ == redirect_url@,
    {
        AuthRequest {
            authentication_service_kind: String::from_str("Microsoft365"),
            client_id,
            client_secret,
            tenant_id,
            redirect_url,
        }
    }
}

impl CompleteRequest {
    /// The complete-sign-in payload carrying the captured code and state.
    pub fn from_auth_code(auth: AuthCode) -> (r: CompleteRequest)
        ensures
            r.code@ == auth.code@,
            r.state@ == auth.state@,
    {
        CompleteRequest { code: auth.code, state: auth.state }
    }
}

impl NotificationData {
    /// The settings written after a completed sign-in: notifications
    /// enabled over the same authentication service, addressed as
    /// configured, and tied to the completed sign-in attempt.  The
    /// remaining fields stay at their defaults.
    pub fn new(
        to: String,
        from: String,
        subject: String,
        user_id: String,
        request_id: String,
    ) -> (r: NotificationData)
        ensures
            r.enable_notification == true,
            r.authentication_type@ == "Microsoft365"@,
            r.use_authentication == false,
            r.username@.len() == 0,
            r.use_ssl == false,
            r.to@ == to@,
            r.from@ == from@,
            r.subject@ == subject@,
            r.user_id@ == user_id@,
            r.request_id@ == request_id@,
    {
        NotificationData {
            enable_notification: true,
            authentication_type: String::from_str("Microsoft365"),
            use_authentication: false,
            username: String::new(),
            use_ssl: false,
            from,
            to,
            subject,
            user_id,
            request_id,
        }
    }
}

impl Default for AuthRequest {
    fn default() -> (r: Self)
        ensures
            r.authentication_service_kind@.len() == 0,
            r.client_id@.len() == 0,
            r.client_secret@.len() == 0,
            r.tenant_id@.len() == 0,
            r.redirect_url@.len() == 0,
    {
        AuthRequest {
            authentication_service_kind: String::new(),
            client_id: String::new(),
            client_secret: String::new(),
            tenant_id: String::new(),
            redirect_url: String::new(),
        }
    }
}

impl Default for AuthResponse {
    fn default() -> (r: Self)
        ensures
            r.sign_in_url@.len() == 0,
            r.request_id@.len() == 0,
    {
        AuthResponse { sign_in_url: String::new(), request_id: String::new() }
    }
}

impl Default for CompleteRequest {
    fn default() -> (r: Self)
        ensures
            r.code@.len() == 0,
            r.state@.len() == 0,
    {
        CompleteRequest { code: String::new(), state: String::new() }
    }
}

impl Default for CompleteResponse {
    fn default() -> (r: Self)
        ensures
            r.request_id@.len() == 0,
            r.user_id@.len() == 0,
    {
        CompleteResponse { request_id: String::new(), user_id: String::new() }
    }
}

impl Default for NotificationData {
    fn default() -> (r: Self)
        ensures
            r.enable_notification == false,
            r.authentication_type@.len() == 0,
            r.use_authentication == false,
            r.username@.len() == 0,
            r.use_ssl == false,
            r.from@.len() == 0,
            r.to@.len() == 0,
            r.subject@.len() == 0,
            r.user_id@.len() == 0,
            r.request_id@.len() == 0,
    {
        NotificationData {
            enable_notification: false,
            authentication_type: String::new(),
            use_authentication: false,
            username: String::new(),
            use_ssl: false,
            from: String::new(),
            to: String::new(),
            subject: String::new(),
            user_id: String::new(),
            request_id: String::new(),
        }
    }
}

impl Default for NotificationResponse {
    fn default() -> (r: Self)
        ensures
            r.message@.len() == 0,
            r.error_code@.len() == 0,
    {
        NotificationResponse { message: String::new(), error_code: String::new() }
    }
}

} // verus!
