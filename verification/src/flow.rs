//! The sign-in flow: a four-step state machine.
//!
//! The machine sequences: request a sign-in URL from the remote service,
//! hand the browser off to it, capture the redirect on the loopback
//! listener, and exchange the captured code for the completion payload.
//! Each step is fatal on failure; nothing is retried.  The machine decides
//! and the I/O shell acts: every transition returns the next state and the
//! one action the shell must perform.  The shell performs it and hands the
//! outcome back as the next event.

use vstd::prelude::*;

use crate::callback::{assignment_values, parse_callback};
use crate::errors::AuthError;
use crate::models::{AuthRequest, AuthResponse, CompleteRequest, CompleteResponse};
use crate::redirect::{extract_port, port_of};

verus! {

/// The configuration a sign-in attempt runs against.
#[derive(Debug, Clone, PartialEq, Eq)]
pub struct FlowConfig {
    pub tenant_id: String,
    pub client_id: String,
    pub client_secret: String,
    /// The registered redirect URL; its port decides where the loopback
    /// listener binds.
    pub redirect_url: String,
}

/// Where a sign-in attempt stands.
#[derive(Debug, Clone, PartialEq, Eq)]
pub enum FlowState {
    /// Nothing has happened yet.
    Idle,
    /// The prepare-sign-in request is out.
    AwaitingSignInUrl,
    /// The browser is off to the identity provider; the loopback listener
    /// waits for the redirect.
    AwaitingBrowserCallback,
    /// The captured code and state are out for exchange.
    ExchangingCode,
    /// The flow succeeded; the completion payload is held here.
    Complete(CompleteResponse),
    /// The flow failed; terminal, never retried.
    Failed(AuthError),
}

/// What the I/O shell reports back to the machine.
#[derive(Debug, Clone, PartialEq, Eq)]
pub enum FlowEvent {
    /// Begin a sign-in attempt.
    Start,
    /// The remote service answered the prepare-sign-in request.
    SignInPrepared(AuthResponse),
    /// The loopback listener captured the redirect's path+query.
    CallbackCaptured(String),
    /// The listener could not run (port unavailable, unreadable inbound
    /// connection).
    ListenFailed(AuthError),
    /// The complete-sign-in endpoint accepted the code/state pair.
    ExchangeSucceeded(CompleteResponse),
    /// The complete-sign-in endpoint rejected it; carries the response
    /// body.
    ExchangeRejected(String),
}

/// The one thing the I/O shell must do after a transition.
#[derive(Debug, Clone, PartialEq, Eq)]
pub enum FlowAction {
    /// Send the prepare-sign-in request.
    RequestSignIn(AuthRequest),
    /// Open the system browser at the sign-in URL and run the loopback
    /// listener on this port.
    CaptureCallback { sign_in_url: String, port: String },
    /// Send the complete-sign-in request.
    Exchange(CompleteRequest),
    /// Nothing: the flow is waiting for nothing or has ended.
    Halt,
}

/// One transition of the sign-in flow.
///
/// Unexpected events leave the state unchanged; the terminal states
/// `Complete` and `Failed` absorb every event, so no failure is ever
/// retried.
pub fn flow_step(config: &FlowConfig, state: FlowState, event: FlowEvent) -> (r: (
    FlowState,
    FlowAction,
))
    ensures
        ({
            let (next, action) = r;
            match (state, event) {
                (FlowState::Idle, FlowEvent::Start) => {
                    &&& next is AwaitingSignInUrl
                    &&& action matches FlowAction::RequestSignIn(q)
                    &&& q.authentication_service_kind@ == "Microsoft365"@
                    &&& q.tenant_id@ == config.tenant_id@
                    &&& q.client_id@ == config.client_id@
                    &&& q.client_secret@ == config.client_secret@
                    &&& q.redirect_url@ == config.redirect_url@
                },
                (FlowState::AwaitingSignInUrl, FlowEvent::SignInPrepared(resp)) => {
                    match port_of(config.redirect_url@) {
                        Some(p) => {
                            &&& next is AwaitingBrowserCallback
                            &&& action matches FlowAction::CaptureCallback { sign_in_url, port }
                            &&& sign_in_url@ == resp.sign_in_url@
                            &&& port@ == p
                        },
                        None => next == FlowState::Failed(AuthError::ConfigError) && action
                            is Halt,
                    }
                },
                (FlowState::AwaitingBrowserCallback, FlowEvent::CallbackCaptured(raw)) => {
                    if assignment_values(raw@, 0).len() == 3 {
                        &&& next is ExchangingCode
                        &&& action matches FlowAction::Exchange(q)
                        &&& q.code@ == assignment_values(raw@, 0)[0]
                        &&& q.state@ == assignment_values(raw@, 0)[1]
                    } else {
                        next == FlowState::Failed(AuthError::InvalidCallback) && action is Halt
                    }
                },
                (FlowState::AwaitingBrowserCallback, FlowEvent::ListenFailed(e)) => next
                    == FlowState::Failed(e) && action is Halt,
                (FlowState::ExchangingCode, FlowEvent::ExchangeSucceeded(resp)) => next
                    == FlowState::Complete(resp) && action is Halt,
                (FlowState::ExchangingCode, FlowEvent::ExchangeRejected(body)) => next
                    == FlowState::Failed(AuthError::ExchangeError(body)) && action is Halt,
                (s, _) => next == s && action is Halt,
            }
        }),
{
    match (state, event) {
        (FlowState::Idle, FlowEvent::Start) => {
            let request = AuthRequest::new(
                config.tenant_id.clone(),
                config.client_id.clone(),
                config.client_secret.clone(),
                config.redirect_url.clone(),
            );
            (FlowState::AwaitingSignInUrl, FlowAction::RequestSignIn(request))
        },
        (FlowState::AwaitingSignInUrl, FlowEvent::SignInPrepared(resp)) => {
            match extract_port(config.redirect_url.as_str()) {
                Ok(port) => (
                    FlowState::AwaitingBrowserCallback,
                    FlowAction::CaptureCallback { sign_in_url: resp.sign_in_url, port },
                ),
                Err(_) => (FlowState::Failed(AuthError::ConfigError), FlowAction::Halt),
            }
        },
        (FlowState::AwaitingBrowserCallback, FlowEvent::CallbackCaptured(raw)) => {
            match parse_callback(raw.as_str()) {
                Ok(auth) => (
                    FlowState::ExchangingCode,
                    FlowAction::Exchange(CompleteRequest::from_auth_code(auth)),
                ),
                Err(_) => (FlowState::Failed(AuthError::InvalidCallback), FlowAction::Halt),
            }
        },
        (FlowState::AwaitingBrowserCallback, FlowEvent::ListenFailed(e)) => (
            FlowState::Failed(e),
            FlowAction::Halt,
        ),
        (FlowState::ExchangingCode, FlowEvent::ExchangeSucceeded(resp)) => (
            FlowState::Complete(resp),
            FlowAction::Halt,
        ),
        (FlowState::ExchangingCode, FlowEvent::ExchangeRejected(body)) => (
            FlowState::Failed(AuthError::ExchangeError(body)),
            FlowAction::Halt,
        ),
        (s, _) => (s, FlowAction::Halt),
    }
}

} // verus!
