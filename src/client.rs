//! The protocol client's settings and its session-token renegotiation rules.
//!
//! The daemon rejects a request whose session token is missing or stale with
//! an authorization conflict (HTTP 409) that carries a fresh token in the
//! session header. The client then stores that token and sends the request
//! once more; a second conflict for the same request is a hard failure.
//!
//! Sending is left to the caller: it asks [`Client::session_token`] for the
//! token to send, reports each answer's status and session header to
//! [`Client::on_reply`], and does what the returned [`SendStep`] says.

use vstd::prelude::*;
use crate::error::ClientError;

verus! {

/// HTTP status of an authorization conflict.
pub const CONFLICT: u16 = 409;

/// Builds a [`Client`]; the daemon's URL must be given.
#[derive(Clone, Debug)]
pub struct ClientBuilder {
    pub tm_url: Option<String>,
}

/// The daemon's endpoint and the latest session token it issued.
#[derive(Clone, Debug)]
pub struct Client {
    pub tm_url: String,
    pub session_id: String,
}

/// The token a client starts with, before the daemon has issued one.
pub open spec fn unknown_session() -> Seq<char> {
    "unknown"@
}

/// The name of the header that carries the session token.
pub open spec fn session_header() -> Seq<char> {
    "X-Transmission-Session-Id"@
}

/// Which sending of a request an answer belongs to.
#[derive(Clone, Copy, Debug, PartialEq, Eq, Structural)]
pub enum Attempt {
    /// Sent with the token the client held.
    First,
    /// Sent again with a token renewed by the daemon.
    Renewed,
}

/// What to do after an answer.
#[derive(Clone, Debug, PartialEq, Eq)]
pub enum SendStep {
    /// Send the request again carrying this token, as the renewed attempt.
    Resend(String),
    /// Decode the answer's body.
    Decode,
    /// Give up with this error.
    Fail(ClientError),
}

/// Whether `step` is what follows an answer with the given status and
/// session header to the request sent as `attempt`.
pub open spec fn reply_step(step: SendStep, attempt: Attempt, status: u16, header: Option<String>) -> bool {
    if status != CONFLICT {
        step == SendStep::Decode
    } else if attempt == Attempt::Renewed {
        step == SendStep::Fail(ClientError::AuthRenewalExhausted)
    } else {
        match header {
            Some(t) => step == SendStep::Resend(t),
            None => step matches SendStep::Fail(ClientError::Protocol(_)),
        }
    }
}

/// The session token held after an answer: the renewed one where the daemon
/// issued one in a conflict on a first attempt, else the one held before.
pub open spec fn token_after(token: Seq<char>, attempt: Attempt, status: u16, header: Option<String>) -> Seq<char> {
    if status == CONFLICT && attempt == Attempt::First && header is Some {
        header.unwrap()@
    } else {
        token
    }
}

/// The name of the session-token header.
pub fn session_header_name() -> (r: &'static str)
    ensures
        r@ == session_header(),
{
    "X-Transmission-Session-Id"
}

impl ClientBuilder {
    /// A builder with no URL yet.
    pub fn new() -> (r: ClientBuilder)
        ensures
            r.tm_url is None,
    {
        ClientBuilder { tm_url: None }
    }

    /// Sets the daemon's URL.
    pub fn transmission_url(self, tm_url: String) -> (r: ClientBuilder)
        ensures
            r.tm_url == Some(tm_url),
    {
        ClientBuilder { tm_url: Some(tm_url) }
    }

    /// A client for the URL, holding the placeholder token; without a URL the
    /// client is misconfigured.
    pub fn build(self) -> (r: Result<Client, ClientError>)
        ensures
            self.tm_url matches Some(u) ==> (r matches Ok(c) && c.tm_url == u && c.session_id@
                == unknown_session()),
            self.tm_url is None ==> (r matches Err(e) && e is Config),
    {
        match self.tm_url {
            Some(tm_url) => Ok(Client { tm_url, session_id: "unknown".to_owned() }),
            None => Err(ClientError::Config("no daemon URL was given".to_owned())),
        }
    }
}

impl Client {
    /// The token to send with the next request.
    pub fn session_token(&self) -> (r: String)
        ensures
            r@ == self.session_id@,
    {
        self.session_id.clone()
    }

    /// Takes in an answer to the request sent as `attempt`: a conflict on the
    /// first attempt stores the daemon's new token and asks for one resend
    /// with it; a conflict on the renewed attempt fails; any other status
    /// lets the body be decoded.
    pub fn on_reply(&mut self, attempt: Attempt, status: u16, header: Option<String>) -> (step: SendStep)
        ensures
            reply_step(step, attempt, status, header),
            final(self).session_id@ == token_after(old(self).session_id@, attempt, status, header),
            final(self).tm_url == old(self).tm_url,
    {
        if status != CONFLICT {
            SendStep::Decode
        } else if attempt == Attempt::Renewed {
            SendStep::Fail(ClientError::AuthRenewalExhausted)
        } else {
            match header {
                Some(t) => {
                    self.session_id = t.clone();
                    SendStep::Resend(t)
                },
                None => SendStep::Fail(
                    ClientError::Protocol("conflict without a session token".to_owned()),
                ),
            }
        }
    }
}

/// A request is renewed at most once. A conflict on the first attempt that
/// carries a token asks for exactly one resend with that token, which the
/// client then holds. On the renewed attempt a success is decoded, a second
/// conflict fails with the renewal exhausted, no answer asks for another
/// resend, and the renewed token stays.
pub proof fn lemma_single_renewal(
    token: Seq<char>,
    renewed: String,
    status: u16,
    header: Option<String>,
    first: SendStep,
    second: SendStep,
)
    requires
        reply_step(first, Attempt::First, CONFLICT, Some(renewed)),
        reply_step(second, Attempt::Renewed, status, header),
    ensures
        first == SendStep::Resend(renewed),
        token_after(token, Attempt::First, CONFLICT, Some(renewed)) == renewed@,
        status == 200 ==> second == SendStep::Decode,
        status == CONFLICT ==> second == SendStep::Fail(ClientError::AuthRenewalExhausted),
        !(second is Resend),
        token_after(renewed@, Attempt::Renewed, status, header) == renewed@,
{
}

} // verus!
