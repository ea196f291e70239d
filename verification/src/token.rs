//! The persisted bearer-credential record and the reuse-vs-refresh policy.
//!
//! Exactly one record is persisted at a time; a new successful sign-in
//! overwrites the prior one unconditionally.  Every authenticated entry
//! point first consults the cached record: while it is valid the access
//! token is reused unchanged and no listener is ever started; an absent or
//! expired record routes to the full sign-in flow.

use vstd::prelude::*;

use crate::errors::AuthError;
use crate::time::{format_rfc3339, parse_rfc3339, rfc3339_epoch, MAX_FORMAT_EPOCH};

verus! {

/// The persisted bearer-token record.
///
/// `expires_on` is always computed as the instant of issue plus
/// `expires_in` seconds, rendered as an RFC3339 text; it is never trusted
/// from any other source.
#[derive(Debug, Clone, PartialEq, Eq)]
pub struct TokenRecord {
    pub access_token: String,
    pub token_type: String,
    pub refresh_token: String,
    /// Lifetime of the token in seconds, as granted at issue.
    pub expires_in: u64,
    /// Absolute expiry as an RFC3339 timestamp text.
    pub expires_on: String,
}

/// The mathematical content of a [`TokenRecord`].
pub ghost struct TokenRecordView {
    pub access_token: Seq<char>,
    pub token_type: Seq<char>,
    pub refresh_token: Seq<char>,
    pub expires_in: u64,
    pub expires_on: Seq<char>,
}

impl View for TokenRecord {
    type V = TokenRecordView;

    open spec fn view(&self) -> TokenRecordView {
        TokenRecordView {
            access_token: self.access_token@,
            token_type: self.token_type@,
            refresh_token: self.refresh_token@,
            expires_in: self.expires_in,
            expires_on: self.expires_on@,
        }
    }
}

/// Is the record still usable at instant `now`?  It is exactly when its
/// expiry text denotes an instant no earlier than `now`.  A record whose
/// expiry text denotes no instant is never valid.
pub open spec fn record_valid_at(r: TokenRecordView, now: i64) -> bool {
    match rfc3339_epoch(r.expires_on) {
        Some(t) => now <= t,
        None => false,
    }
}

impl TokenRecord {
    /// Builds the record persisted after a successful sign-in: the token
    /// fields as granted, and the absolute expiry computed as the instant
    /// of issue plus the granted lifetime.
    pub fn issue(
        access_token: String,
        token_type: String,
        refresh_token: String,
        expires_in: u64,
        now: i64,
    ) -> (r: TokenRecord)
        requires
            0 <= now,
            now + expires_in <= MAX_FORMAT_EPOCH,
        ensures
            r@.access_token == access_token@,
            r@.token_type == token_type@,
            r@.refresh_token == refresh_token@,
            r@.expires_in == expires_in,
            rfc3339_epoch(r@.expires_on) == Some((now + expires_in) as i64),
            record_valid_at(r@, now),
    {
        let expiry: i64 = now + (expires_in as i64);
        let expires_on = format_rfc3339(expiry);
        TokenRecord { access_token, token_type, refresh_token, expires_in, expires_on }
    }

    /// Is the record still usable at instant `now`?
    pub fn is_valid(&self, now: i64) -> (r: bool)
        ensures
            r == record_valid_at(self@, now),
    {
        match parse_rfc3339(self.expires_on.as_str()) {
            Some(t) => now <= t,
            None => false,
        }
    }
}

/// How an authenticated entry point obtains its session.
#[derive(Debug, Clone, PartialEq, Eq)]
pub enum SessionPlan {
    /// The cached record is valid: build the session from this access
    /// token, unchanged.  No listener, no browser, no exchange.
    Reuse(String),
    /// No usable record: run the full sign-in flow and persist its result.
    FullFlow,
}

/// The mathematical content of a [`SessionPlan`].
pub ghost enum SessionPlanView {
    Reuse(Seq<char>),
    FullFlow,
}

impl View for SessionPlan {
    type V = SessionPlanView;

    open spec fn view(&self) -> SessionPlanView {
        match self {
            SessionPlan::Reuse(t) => SessionPlanView::Reuse(t@),
            SessionPlan::FullFlow => SessionPlanView::FullFlow,
        }
    }
}

/// The routing policy, as a function of the cached record and the clock:
/// no record routes to the full flow; a record whose expiry text denotes
/// no instant is a storage fault; otherwise the access token is reused
/// exactly when the record has not expired.
pub open spec fn plan_spec(cached: Option<TokenRecordView>, now: i64) -> Result<
    SessionPlanView,
    AuthError,
> {
    match cached {
        None => Ok(SessionPlanView::FullFlow),
        Some(r) => match rfc3339_epoch(r.expires_on) {
            None => Err(AuthError::StorageError),
            Some(t) => if now <= t {
                Ok(SessionPlanView::Reuse(r.access_token))
            } else {
                Ok(SessionPlanView::FullFlow)
            },
        },
    }
}

/// Decides, from the cached record and the current instant, whether the
/// cached access token is reused or the full sign-in flow runs.
pub fn plan_session(cached: Option<&TokenRecord>, now: i64) -> (r: Result<
    SessionPlan,
    AuthError,
>)
    ensures
        match r {
            Ok(p) => plan_spec(
                match cached {
                    Some(c) => Some(c@),
                    None => None,
                },
                now,
            ) == Ok::<SessionPlanView, AuthError>(p@),
            Err(e) => plan_spec(
                match cached {
                    Some(c) => Some(c@),
                    None => None,
                },
                now,
            ) == Err::<SessionPlanView, AuthError>(e),
        },
{
    match cached {
        None => Ok(SessionPlan::FullFlow),
        Some(rec) => match parse_rfc3339(rec.expires_on.as_str()) {
            None => Err(AuthError::StorageError),
            Some(t) => if now <= t {
                Ok(SessionPlan::Reuse(rec.access_token.clone()))
            } else {
                Ok(SessionPlan::FullFlow)
            },
        },
    }
}

/// An expired record always routes to the full sign-in flow.
pub proof fn lemma_expired_record_routes_to_full_flow(r: TokenRecordView, now: i64, t: i64)
    requires
        rfc3339_epoch(r.expires_on) == Some(t),
        t < now,
    ensures
        !record_valid_at(r, now),
        plan_spec(Some(r), now) == Ok::<SessionPlanView, AuthError>(SessionPlanView::FullFlow),
{
}

/// An unexpired record never routes to the flow — no listener is started —
/// and the access token is reused unchanged.
pub proof fn lemma_valid_record_reuses_token(r: TokenRecordView, now: i64, t: i64)
    requires
        rfc3339_epoch(r.expires_on) == Some(t),
        now <= t,
    ensures
        record_valid_at(r, now),
        plan_spec(Some(r), now) == Ok::<SessionPlanView, AuthError>(
            SessionPlanView::Reuse(r.access_token),
        ),
{
}

} // verus!
