//! Session manager: exchanges credentials for a bearer token.
//!
//! The network call itself happens outside the crate; this module builds the
//! login request and classifies the response. A `Session` only ever comes out
//! of a successful, well-formed login exchange, so its token is never empty.

use crate::wire::{
    authorized_headers_spec, base_headers_spec, encode_login_body, get_headers,
    lemma_parse_payload_exact, lemma_parse_payload_roundtrip, login_body_of, parse_token_payload,
    parse_token_spec, token_payload_of, Header,
};
use vstd::prelude::*;
use vstd::string::StrSliceExecFns;

verus! {

/// Credentials of one account: the identifier it logs in with and its secret.
pub struct User {
    pub user_id: String,
    pub password: String,
}

/// The mathematical value of a `User`: both fields as character sequences.
pub ghost struct UserView {
    pub user_id: Seq<char>,
    pub password: Seq<char>,
}

impl View for User {
    type V = UserView;

    open spec fn view(&self) -> UserView {
        UserView { user_id: self.user_id@, password: self.password@ }
    }
}

impl User {
    /// Builds credentials from an identifier and a password.
    pub fn new(username: &str, password: &str) -> (u: User)
        ensures
            u.user_id@ == username@,
            u.password@ == password@,
    {
        User { user_id: username.to_owned(), password: password.to_owned() }
    }
}

impl Clone for User {
    fn clone(&self) -> (u: Self)
        ensures
            u@ == self@,
    {
        User { user_id: self.user_id.clone(), password: self.password.clone() }
    }
}

/// An authenticated context: an identity together with the bearer token the
/// service issued for it.
pub struct Session {
    pub identifier: String,
    pub bearer_token: String,
    pub issued_at: u64,
}

impl Session {
    /// A session is only valid with a non-empty bearer token.
    pub open spec fn wf(&self) -> bool {
        self.bearer_token@.len() > 0
    }
}

impl Clone for Session {
    fn clone(&self) -> (s: Self)
        ensures
            s.identifier@ == self.identifier@,
            s.bearer_token@ == self.bearer_token@,
            s.issued_at == self.issued_at,
    {
        Session {
            identifier: self.identifier.clone(),
            bearer_token: self.bearer_token.clone(),
            issued_at: self.issued_at,
        }
    }
}

/// Why a login failed.
#[derive(Clone, Copy, PartialEq, Eq, Structural, Debug)]
pub enum AuthError {
    /// The service answered the login with a non-success status.
    InvalidCredentials,
    /// The service accepted the login but the body was not a token payload.
    MalformedResponse,
}

/// A status in the 2xx range.
pub open spec fn is_success_status(status: u16) -> bool {
    200 <= status < 300
}

/// The token a login response body carries, if the body is a well-formed
/// payload with a non-empty token.
pub open spec fn login_token(body: Seq<char>) -> Option<Seq<char>> {
    match parse_token_spec(body) {
        Some(t) => if t.len() > 0 {
            Some(t)
        } else {
            None
        },
        None => None,
    }
}

/// A request the harness is about to send: path relative to the base URL,
/// headers, and body. The method is always POST.
pub struct RequestPlan {
    pub path: String,
    pub headers: Vec<Header>,
    pub body: String,
}

/// Builds the login request for `user`: POST `/auth/login` with the base
/// headers and the credentials encoded as JSON.
pub fn login_request(user: &User) -> (r: RequestPlan)
    ensures
        r.path@ == "/auth/login"@,
        base_headers_spec(r.headers@),
        r.body@ == login_body_of(user.user_id@, user.password@),
{
    RequestPlan {
        path: "/auth/login".to_owned(),
        headers: get_headers(),
        body: encode_login_body(user.user_id.as_str(), user.password.as_str()),
    }
}

/// Classifies a login response for `user`.
///
/// A non-success status means the credentials were rejected; a success status
/// with anything but a token payload carrying a non-empty token means the
/// response was malformed; otherwise the exchange yields a valid session for
/// exactly this identity, stamped with `now`.
pub fn login_outcome(user: &User, status: u16, body: &str, now: u64) -> (r: Result<
    Session,
    AuthError,
>)
    ensures
        match r {
            Ok(s) => is_success_status(status) && login_token(body@) == Some(s.bearer_token@)
                && s.identifier@ == user.user_id@ && s.issued_at == now && s.wf(),
            Err(AuthError::InvalidCredentials) => !is_success_status(status),
            Err(AuthError::MalformedResponse) => is_success_status(status) && login_token(body@)
                is None,
        },
{
    if !(200 <= status && status < 300) {
        return Err(AuthError::InvalidCredentials);
    }
    match parse_token_payload(body) {
        None => Err(AuthError::MalformedResponse),
        Some(t) => {
            if t.unicode_len() == 0 {
                Err(AuthError::MalformedResponse)
            } else {
                Ok(Session { identifier: user.user_id.clone(), bearer_token: t, issued_at: now })
            }
        },
    }
}

/// Law: across any two successful logins, tokens are never aliased by the
/// harness: distinct response bodies always yield distinct session tokens,
/// and a session token is never empty. (Two identities share a token only if
/// the service itself answered both logins with the same payload.)
pub proof fn lemma_no_token_reuse(b1: Seq<char>, b2: Seq<char>, t1: Seq<char>, t2: Seq<char>)
    requires
        login_token(b1) == Some(t1),
        login_token(b2) == Some(t2),
        b1 != b2,
    ensures
        t1 != t2,
        t1.len() > 0,
        t2.len() > 0,
{
    lemma_parse_payload_exact(b1);
    lemma_parse_payload_exact(b2);
}

/// Law: success is owed exactly on well-formed exchanges: a success status
/// whose body is the token payload of any non-empty token always yields that
/// token, so a login only ever fails on a rejecting status or a body that is
/// no such payload.
pub proof fn lemma_login_accepts_token_payload(t: Seq<char>)
    requires
        t.len() > 0,
    ensures
        login_token(token_payload_of(t)) == Some(t),
{
    lemma_parse_payload_roundtrip(t);
}

/// Builds the headers of a request authorized by `session`.
pub fn session_headers(session: &Session) -> (h: Vec<Header>)
    ensures
        authorized_headers_spec(h@, session.bearer_token@),
{
    crate::wire::authorized_headers(session.bearer_token.as_str())
}

} // verus!
