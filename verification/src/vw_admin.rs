//! The session with the Vaultwarden admin API.
//!
//! A [`Client`] logs in with the admin token, keeps the session cookie for
//! [`COOKIE_LIFESPAN`] and logs in again before the first call after that.
//! Whether a cookie is still good is judged by its age alone: the server is
//! never asked, and a call that the server refuses is not repeated.
//!
//! A call is begun with [`Client::get`], [`Client::post`], [`Client::users`]
//! or [`Client::invite`], each of which returns the request to send first.
//! The outcome of every exchange goes to [`Client::receive`], which answers
//! with the next request or with the call's result.

use crate::http::{
    describe_status, exchange_view, is_error_status, status_is_error, status_message, Exchange,
    Field, HttpSettings, Method, Payload, PayloadView, Reply, ReplyView, Request, RequestView,
};
use crate::model::{view_of, views};
use crate::text::join;
use vstd::prelude::*;
use vstd::string::StringExecFns;

verus! {

/// How long a session cookie is used: twenty minutes, in nanoseconds, the
/// unit of every reading of the clock that the client is given.
pub const COOKIE_LIFESPAN: u64 = 1_200_000_000_000;

/// The status by which the admin API marks a disabled account.
pub const DISABLED_STATUS: i32 = 2;

/// Why a call to the admin API failed.
#[derive(Debug, PartialEq, Eq)]
pub enum ResponseError {
    /// No reply came; the transport's account of it.
    TransportError(String),
    /// The login before the call failed: no reply, an error status, or a
    /// reply without a session cookie.
    AuthError(String),
    /// The server answered the call with an error status.
    ApiError(String),
    /// The body of the reply was not what the call expects.
    DecodeError(String),
}

/// The model of a [`ResponseError`].
pub enum ResponseErrorView {
    TransportError(Seq<char>),
    AuthError(Seq<char>),
    ApiError(Seq<char>),
    DecodeError(Seq<char>),
}

impl View for ResponseError {
    type V = ResponseErrorView;

    open spec fn view(&self) -> ResponseErrorView {
        match self {
            ResponseError::TransportError(cause) => ResponseErrorView::TransportError(cause@),
            ResponseError::AuthError(cause) => ResponseErrorView::AuthError(cause@),
            ResponseError::ApiError(cause) => ResponseErrorView::ApiError(cause@),
            ResponseError::DecodeError(cause) => ResponseErrorView::DecodeError(cause@),
        }
    }
}

impl Clone for ResponseError {
    fn clone(&self) -> (r: ResponseError)
        ensures
            r@ == self@,
    {
        match self {
            ResponseError::TransportError(cause) => ResponseError::TransportError(cause.clone()),
            ResponseError::AuthError(cause) => ResponseError::AuthError(cause.clone()),
            ResponseError::ApiError(cause) => ResponseError::ApiError(cause.clone()),
            ResponseError::DecodeError(cause) => ResponseError::DecodeError(cause.clone()),
        }
    }
}

/// A user as the server lists it.
#[derive(Debug, PartialEq, Eq)]
pub struct User {
    email: String,
    status: i32,
}

/// The model of a [`User`].
pub struct UserView {
    pub email: Seq<char>,
    pub status: i32,
}

impl View for User {
    type V = UserView;

    closed spec fn view(&self) -> UserView {
        UserView { email: self.email@, status: self.status }
    }
}

impl User {
    /// A user with the address `email` and the status `status`.
    pub fn new(email: String, status: i32) -> (r: User)
        ensures
            r@ == (UserView { email: email@, status }),
    {
        User { email, status }
    }

    /// The user's mail address, as the server has it.
    pub fn get_email(&self) -> (r: String)
        ensures
            r@ == self@.email,
    {
        self.email.clone()
    }

    /// Whether the account is disabled.
    pub fn is_disabled(&self) -> (r: bool)
        ensures
            r == (self@.status == DISABLED_STATUS),
    {
        self.status == DISABLED_STATUS
    }
}

/// The age at `now` of what was made at `created`: zero where the clock
/// reads less than it did then.
pub open spec fn age(created: u64, now: u64) -> int {
    if now >= created {
        now - created
    } else {
        0
    }
}

/// Whether what was made at `created` has reached `lifespan` at `now`.
pub open spec fn expired(created: u64, now: u64, lifespan: u64) -> bool {
    age(created, now) >= lifespan
}

/// Whether what was made at `created_at` has reached `lifespan` at `now`.
pub fn is_expired(created_at: u64, now: u64, lifespan: u64) -> (r: bool)
    ensures
        r == expired(created_at, now, lifespan),
{
    if now >= created_at {
        now - created_at >= lifespan
    } else {
        lifespan == 0
    }
}

/// The message of the error for a login reply that sets no cookie.
pub open spec fn no_cookie_message() -> Seq<char> {
    "Could not read authentication cookie"@
}

/// What the outcome of a login yields: the session cookie, or the error.
pub open spec fn login_result(outcome: Result<ReplyView, Seq<char>>) -> Result<
    Seq<char>,
    ResponseErrorView,
> {
    match outcome {
        Err(cause) => Err(ResponseErrorView::AuthError(cause)),
        Ok(reply) => if is_error_status(reply.status) {
            Err(ResponseErrorView::AuthError(status_message(reply.status)))
        } else {
            match reply.set_cookie {
                Some(cookie) => Ok(cookie),
                None => Err(ResponseErrorView::AuthError(no_cookie_message())),
            }
        },
    }
}

/// What the outcome of a call yields: the reply, unless it is an error.
pub open spec fn call_result(outcome: Result<ReplyView, Seq<char>>) -> Result<
    ReplyView,
    ResponseErrorView,
> {
    match outcome {
        Err(cause) => Err(ResponseErrorView::TransportError(cause)),
        Ok(reply) => if is_error_status(reply.status) {
            Err(ResponseErrorView::ApiError(status_message(reply.status)))
        } else {
            Ok(reply)
        },
    }
}

/// The view of a call's result.
pub open spec fn result_view(result: Result<Reply, ResponseError>) -> Result<
    ReplyView,
    ResponseErrorView,
> {
    match result {
        Ok(reply) => Ok(reply@),
        Err(e) => Err(e@),
    }
}

/// The view of a login's result.
pub open spec fn login_view(result: Result<(), ResponseError>) -> Result<(), ResponseErrorView> {
    match result {
        Ok(_) => Ok(()),
        Err(e) => Err(e@),
    }
}

/// The view of a listing's result.
pub open spec fn users_view(result: Result<Vec<User>, ResponseError>) -> Result<
    Seq<UserView>,
    ResponseErrorView,
> {
    match result {
        Ok(users) => Ok(views(users@)),
        Err(e) => Err(e@),
    }
}

/// What the reading of a listing's body yields: the users, unless the body
/// could not be read as users.
pub open spec fn read_result(decoded: Result<Seq<UserView>, Seq<char>>) -> Result<
    Seq<UserView>,
    ResponseErrorView,
> {
    match decoded {
        Ok(users) => Ok(users),
        Err(cause) => Err(ResponseErrorView::DecodeError(cause)),
    }
}

/// Judges the outcome of a call: a missing reply is a transport error, an
/// error status an API error, and any other reply is the result.
pub fn check(outcome: Exchange) -> (r: Result<Reply, ResponseError>)
    ensures
        result_view(r) == call_result(exchange_view(outcome)),
{
    match outcome {
        Err(cause) => Err(ResponseError::TransportError(cause)),
        Ok(reply) => {
            if status_is_error(reply.status) {
                Err(ResponseError::ApiError(describe_status(reply.status)))
            } else {
                Ok(reply)
            }
        },
    }
}

/// What [`Client::receive`] answers with.
#[derive(Debug, PartialEq, Eq)]
pub enum Progress {
    /// The call goes on: send this request and report its outcome.
    Send(Request),
    /// The call is over.
    Done(Result<Reply, ResponseError>),
}

/// The model of a [`Progress`].
pub enum ProgressView {
    Send(RequestView),
    Done(Result<ReplyView, ResponseErrorView>),
}

impl View for Progress {
    type V = ProgressView;

    open spec fn view(&self) -> ProgressView {
        match self {
            Progress::Send(request) => ProgressView::Send(request@),
            Progress::Done(result) => ProgressView::Done(result_view(*result)),
        }
    }
}

/// A session cookie and the clock's reading when the login that brought it
/// was begun.
struct SessionCredential {
    token: String,
    created: u64,
}

/// The client of the admin API.
pub struct Client {
    url: String,
    admin_token: String,
    root_cert_file: String,
    credential: Option<SessionCredential>,
    auth_started: u64,
    queued: Option<Request>,
}

/// The model of a [`Client`].
pub struct ClientView {
    /// The server's base URL.
    pub url: Seq<char>,
    pub admin_token: Seq<char>,
    /// The path of a certificate to trust; empty where there is none.
    pub root_cert_file: Seq<char>,
    /// The cached cookie and when it was made.
    pub credential: Option<(Seq<char>, u64)>,
    /// When the last login was begun.
    pub auth_started: u64,
    /// The call that waits for the login in flight, still without a cookie.
    pub queued: Option<RequestView>,
}

impl ClientView {
    /// Whether a login is due at `now`: no cookie is cached, or the cached
    /// one has reached its lifespan.
    pub open spec fn cookie_expired(self, now: u64) -> bool {
        match self.credential {
            Some((_, created)) => expired(created, now, COOKIE_LIFESPAN),
            None => true,
        }
    }

    /// The login request.
    pub open spec fn auth_request(self) -> RequestView {
        RequestView {
            method: Method::Post,
            url: self.url + "/admin/"@,
            cookie: None,
            payload: PayloadView::Form(seq![("token"@, self.admin_token)]),
        }
    }

    /// The request of a call to `path`, before a cookie is attached.
    pub open spec fn call(
        self,
        method: Method,
        path: Seq<char>,
        payload: PayloadView,
    ) -> RequestView {
        RequestView { method, url: self.url + "/admin"@ + path, cookie: None, payload }
    }

    /// The client once a login was begun at `now`.
    pub open spec fn auth(self, now: u64) -> ClientView {
        ClientView { auth_started: now, ..self }
    }

    /// The client after the login's outcome, and what the login yielded.
    pub open spec fn finish_auth(self, outcome: Result<ReplyView, Seq<char>>) -> (
        ClientView,
        Result<(), ResponseErrorView>,
    ) {
        match login_result(outcome) {
            Ok(cookie) => (
                ClientView { credential: Some((cookie, self.auth_started)), ..self },
                Ok(()),
            ),
            Err(e) => (self, Err(e)),
        }
    }

    /// The client after the session was seen to at `now`, and the login
    /// request where one is due.
    pub open spec fn ensure_auth(self, now: u64) -> (ClientView, Option<RequestView>) {
        if self.cookie_expired(now) {
            (self.auth(now), Some(self.auth_request()))
        } else {
            (self, None)
        }
    }

    /// The client after `call` was begun at `now`, and the request to send
    /// first: the login where one is due, with the call waiting for it, else
    /// the call itself with the cached cookie.
    pub open spec fn begin(self, call: RequestView, now: u64) -> (ClientView, RequestView) {
        match self.ensure_auth(now) {
            (next, Some(login)) => (ClientView { queued: Some(call), ..next }, login),
            (next, None) => (
                ClientView { queued: None, ..next },
                RequestView { cookie: Some(self.credential.unwrap().0), ..call },
            ),
        }
    }

    /// The client after the outcome of the exchange it asked for, and how the
    /// call goes on. Where a call waits, the outcome is the login's: a good
    /// one sends the call with the new cookie, a bad one ends the call.
    /// Otherwise the outcome is the call's own.
    pub open spec fn receive(self, outcome: Result<ReplyView, Seq<char>>) -> (
        ClientView,
        ProgressView,
    ) {
        match self.queued {
            Some(call) => {
                let (next, result) = (ClientView { queued: None, ..self }).finish_auth(outcome);
                match result {
                    Ok(_) => (
                        next,
                        ProgressView::Send(
                            RequestView { cookie: Some(next.credential.unwrap().0), ..call },
                        ),
                    ),
                    Err(e) => (next, ProgressView::Done(Err(e))),
                }
            },
            None => (self, ProgressView::Done(call_result(outcome))),
        }
    }
}

/// A cookie younger than its lifespan is used again. Seeing to the session
/// then asks for no login and leaves the client as it is, however often it
/// is done, and a call begun then is sent at once, under that cookie.
pub proof fn lemma_fresh_cookie_is_reused(client: ClientView, call: RequestView, now: u64)
    requires
        client.credential is Some,
        age(client.credential.unwrap().1, now) < COOKIE_LIFESPAN,
    ensures
        client.ensure_auth(now) == (client, None::<RequestView>),
        client.begin(call, now).1 == (RequestView {
            cookie: Some(client.credential.unwrap().0),
            ..call
        }),
        client.begin(call, now).1 != client.auth_request(),
        client.begin(call, now).0.credential == client.credential,
        client.begin(call, now).0.queued is None,
{
}

/// A cookie that has reached its lifespan, or a missing one, is replaced by
/// exactly one login before the next call. The first request of a call begun
/// then is the login; a reply to it that is no error and sets a cookie sends
/// the call itself, under the new cookie, and no further login is due.
pub proof fn lemma_stale_cookie_is_replaced_once(
    client: ClientView,
    call: RequestView,
    now: u64,
    reply: ReplyView,
)
    requires
        client.cookie_expired(now),
        !is_error_status(reply.status),
        reply.set_cookie is Some,
    ensures
        ({
            let (waiting, first) = client.begin(call, now);
            let (ready, progress) = waiting.receive(Ok(reply));
            &&& first == client.auth_request()
            &&& progress == ProgressView::Send(RequestView { cookie: reply.set_cookie, ..call })
            &&& ready.credential == Some((reply.set_cookie.unwrap(), now))
            &&& ready.queued is None
            &&& !ready.cookie_expired(now)
            &&& ready.ensure_auth(now) == (ready, None::<RequestView>)
        }),
{
}

impl View for Client {
    type V = ClientView;

    closed spec fn view(&self) -> ClientView {
        ClientView {
            url: self.url@,
            admin_token: self.admin_token@,
            root_cert_file: self.root_cert_file@,
            credential: match self.credential {
                Some(c) => Some((c.token@, c.created)),
                None => None,
            },
            auth_started: self.auth_started,
            queued: match self.queued {
                Some(call) => Some(call@),
                None => None,
            },
        }
    }
}

impl Client {
    /// A client of the server at `url` that has not logged in yet.
    /// `root_cert_file` is the path of a certificate to trust, or empty.
    pub fn new(url: String, admin_token: String, root_cert_file: String) -> (r: Client)
        ensures
            r@ == (ClientView {
                url: url@,
                admin_token: admin_token@,
                root_cert_file: root_cert_file@,
                credential: None,
                auth_started: 0,
                queued: None,
            }),
    {
        Client { url, admin_token, root_cert_file, credential: None, auth_started: 0, queued: None }
    }

    /// How the transport is to be set up: redirects are not followed, and
    /// the root certificate is trusted where a path was given.
    pub fn get_http_client(&self) -> (r: HttpSettings)
        ensures
            !r.follow_redirects,
            view_of(r.root_cert_file) == if self@.root_cert_file.len() == 0 {
                None
            } else {
                Some(self@.root_cert_file)
            },
    {
        let root_cert_file = if self.root_cert_file.as_str().is_empty() {
            None
        } else {
            Some(self.root_cert_file.clone())
        };
        HttpSettings { follow_redirects: false, root_cert_file }
    }

    /// Whether a login is due at `now`.
    pub fn cookie_expired(&self, now: u64) -> (r: bool)
        ensures
            r == self@.cookie_expired(now),
    {
        match &self.credential {
            Some(credential) => is_expired(credential.created, now, COOKIE_LIFESPAN),
            None => true,
        }
    }

    /// Begins a login at `now` and returns the request to send. Its outcome
    /// goes to [`Client::finish_auth`].
    pub fn auth(&mut self, now: u64) -> (r: Request)
        ensures
            final(self)@ == old(self)@.auth(now),
            r@ == old(self)@.auth_request(),
    {
        self.auth_started = now;
        let mut fields: Vec<Field> = Vec::new();
        fields.push(Field { name: String::from_str("token"), value: self.admin_token.clone() });
        let r = Request {
            method: Method::Post,
            url: join(self.url.as_str(), "/admin/"),
            cookie: None,
            payload: Payload::Form(fields),
        };
        assert(views(fields@) =~= seq![("token"@, self@.admin_token)]);
        r
    }

    /// Takes the outcome of the login begun last. A reply that is no error
    /// and sets a cookie makes that cookie the session's, whatever was cached
    /// before, with the time the login was begun as its time of creation.
    /// Anything else is an `AuthError` and leaves the session as it was.
    pub fn finish_auth(&mut self, outcome: Exchange) -> (r: Result<(), ResponseError>)
        ensures
            (final(self)@, login_view(r)) == old(self)@.finish_auth(exchange_view(outcome)),
    {
        match outcome {
            Err(cause) => Err(ResponseError::AuthError(cause)),
            Ok(reply) => {
                if status_is_error(reply.status) {
                    Err(ResponseError::AuthError(describe_status(reply.status)))
                } else {
                    match reply.set_cookie {
                        Some(cookie) => {
                            self.credential = Some(
                                SessionCredential { token: cookie, created: self.auth_started },
                            );
                            Ok(())
                        },
                        None => Err(
                            ResponseError::AuthError(
                                String::from_str("Could not read authentication cookie"),
                            ),
                        ),
                    }
                }
            },
        }
    }

    /// Sees to the session at `now`: begins a login and returns its request
    /// where one is due, and does nothing otherwise.
    pub fn ensure_auth(&mut self, now: u64) -> (r: Option<Request>)
        ensures
            final(self)@ == old(self)@.ensure_auth(now).0,
            view_of(r) == old(self)@.ensure_auth(now).1,
    {
        if self.cookie_expired(now) {
            Some(self.auth(now))
        } else {
            None
        }
    }

    fn begin(&mut self, call: Request, now: u64) -> (r: Request)
        ensures
            (final(self)@, r@) == old(self)@.begin(call@, now),
    {
        match self.ensure_auth(now) {
            Some(login) => {
                self.queued = Some(call);
                login
            },
            None => {
                self.queued = None;
                let cookie = match &self.credential {
                    Some(credential) => Some(credential.token.clone()),
                    None => None,
                };
                Request { method: call.method, url: call.url, cookie, payload: call.payload }
            },
        }
    }

    /// Begins a GET of `path` under the admin API at `now`.
    pub fn get(&mut self, path: &str, now: u64) -> (r: Request)
        ensures
            (final(self)@, r@) == old(self)@.begin(
                old(self)@.call(Method::Get, path@, PayloadView::Empty),
                now,
            ),
    {
        let url = join(join(self.url.as_str(), "/admin").as_str(), path);
        let call = Request { method: Method::Get, url, cookie: None, payload: Payload::Empty };
        self.begin(call, now)
    }

    /// Begins a POST of `json`, as one JSON object, to `path` under the
    /// admin API at `now`.
    pub fn post(&mut self, path: &str, json: Vec<Field>, now: u64) -> (r: Request)
        ensures
            (final(self)@, r@) == old(self)@.begin(
                old(self)@.call(Method::Post, path@, PayloadView::Json(views(json@))),
                now,
            ),
    {
        let url = join(join(self.url.as_str(), "/admin").as_str(), path);
        let payload = Payload::Json(json);
        let call = Request { method: Method::Post, url, cookie: None, payload };
        self.begin(call, now)
    }

    /// Begins the invitation of `email` at `now`.
    pub fn invite(&mut self, email: &str, now: u64) -> (r: Request)
        ensures
            (final(self)@, r@) == old(self)@.begin(
                old(self)@.call(
                    Method::Post,
                    "/invite"@,
                    PayloadView::Json(seq![("email"@, email@)]),
                ),
                now,
            ),
    {
        let mut json: Vec<Field> = Vec::new();
        json.push(Field { name: String::from_str("email"), value: String::from_str(email) });
        assert(views(json@) =~= seq![("email"@, email@)]);
        self.post("/invite", json, now)
    }

    /// Begins the listing of the server's users at `now`. Once the call is
    /// done with a reply, the reply's body holds the listing.
    pub fn users(&mut self, now: u64) -> (r: Request)
        ensures
            (final(self)@, r@) == old(self)@.begin(
                old(self)@.call(Method::Get, "/users"@, PayloadView::Empty),
                now,
            ),
    {
        self.get("/users", now)
    }

    /// Takes what became of the body of the listing's reply: the users
    /// that it was read as, or why it could not be read as users, which is a
    /// `DecodeError`.
    pub fn read_users(decoded: Result<Vec<User>, String>) -> (r: Result<Vec<User>, ResponseError>)
        ensures
            users_view(r) == read_result(
                match decoded {
                    Ok(users) => Ok(views(users@)),
                    Err(cause) => Err(cause@),
                },
            ),
    {
        match decoded {
            Ok(users) => Ok(users),
            Err(cause) => Err(ResponseError::DecodeError(cause)),
        }
    }

    /// Takes the outcome of the exchange that the client asked for last.
    pub fn receive(&mut self, outcome: Exchange) -> (r: Progress)
        ensures
            (final(self)@, r@) == old(self)@.receive(exchange_view(outcome)),
    {
        match self.queued.take() {
            Some(call) => {
                match self.finish_auth(outcome) {
                    Ok(_) => {
                        let cookie = match &self.credential {
                            Some(credential) => Some(credential.token.clone()),
                            None => None,
                        };
                        Progress::Send(
                            Request {
                                method: call.method,
                                url: call.url,
                                cookie,
                                payload: call.payload,
                            },
                        )
                    },
                    Err(e) => Progress::Done(Err(e)),
                }
            },
            None => Progress::Done(check(outcome)),
        }
    }
}

} // verus!
