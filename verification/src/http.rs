//! What is sent to the admin API and what comes back, as plain values.
//!
//! The crate opens no connection. It describes each request; whoever drives
//! it performs the exchange and reports its outcome.

use crate::model::{view_of, views};
use crate::text::{decimal, join, to_decimal};
use vstd::prelude::*;

verus! {

/// The two request methods that the admin API is spoken with.
#[derive(Clone, Copy, Debug, PartialEq, Eq, Structural)]
pub enum Method {
    Get,
    Post,
}

/// One named value of a request body.
#[derive(Debug, PartialEq, Eq)]
pub struct Field {
    pub name: String,
    pub value: String,
}

impl View for Field {
    type V = (Seq<char>, Seq<char>);

    open spec fn view(&self) -> (Seq<char>, Seq<char>) {
        (self.name@, self.value@)
    }
}

impl Clone for Field {
    fn clone(&self) -> (r: Field)
        ensures
            r@ == self@,
    {
        Field { name: self.name.clone(), value: self.value.clone() }
    }
}

/// The body of a request.
#[derive(Debug, PartialEq, Eq)]
pub enum Payload {
    /// No body.
    Empty,
    /// The fields, URL-encoded as a form.
    Form(Vec<Field>),
    /// One JSON object with the fields as its string members.
    Json(Vec<Field>),
}

/// The model of a [`Payload`]: each field as its name and its value.
pub enum PayloadView {
    Empty,
    Form(Seq<(Seq<char>, Seq<char>)>),
    Json(Seq<(Seq<char>, Seq<char>)>),
}

impl View for Payload {
    type V = PayloadView;

    open spec fn view(&self) -> PayloadView {
        match self {
            Payload::Empty => PayloadView::Empty,
            Payload::Form(fields) => PayloadView::Form(views(fields@)),
            Payload::Json(fields) => PayloadView::Json(views(fields@)),
        }
    }
}

/// One request to the admin API. Redirects are never to be followed: see
/// [`HttpSettings`].
#[derive(Debug, PartialEq, Eq)]
pub struct Request {
    pub method: Method,
    pub url: String,
    /// The value of the `Cookie` header, where the request carries one.
    pub cookie: Option<String>,
    pub payload: Payload,
}

/// The model of a [`Request`].
pub struct RequestView {
    pub method: Method,
    pub url: Seq<char>,
    pub cookie: Option<Seq<char>>,
    pub payload: PayloadView,
}

impl View for Request {
    type V = RequestView;

    open spec fn view(&self) -> RequestView {
        RequestView {
            method: self.method,
            url: self.url@,
            cookie: view_of(self.cookie),
            payload: self.payload@,
        }
    }
}

/// What the server answered: its status code and the value of the
/// `Set-Cookie` header, where it sent one. The body stays with the driver.
#[derive(Debug, PartialEq, Eq)]
pub struct Reply {
    pub status: u16,
    pub set_cookie: Option<String>,
}

/// The model of a [`Reply`].
pub struct ReplyView {
    pub status: u16,
    pub set_cookie: Option<Seq<char>>,
}

impl View for Reply {
    type V = ReplyView;

    open spec fn view(&self) -> ReplyView {
        ReplyView { status: self.status, set_cookie: view_of(self.set_cookie) }
    }
}

/// How an exchange ended: with a reply, or with the transport's account of
/// why none came (name resolution, TLS, connection).
pub type Exchange = Result<Reply, String>;

/// The view of an exchange's outcome.
pub open spec fn exchange_view(outcome: Exchange) -> Result<ReplyView, Seq<char>> {
    match outcome {
        Ok(reply) => Ok(reply@),
        Err(cause) => Err(cause@),
    }
}

/// How the transport is to be set up, once, before the first request.
#[derive(Debug, PartialEq, Eq)]
pub struct HttpSettings {
    /// Whether a redirect is followed. A successful login answers with a
    /// redirect to the admin page, and following it would lose the reply that
    /// sets the session cookie.
    pub follow_redirects: bool,
    /// A DER certificate to add to the trust store.
    pub root_cert_file: Option<String>,
}

/// Whether a status code reports a client or a server error.
pub open spec fn is_error_status(status: u16) -> bool {
    400 <= status <= 599
}

/// Whether `status` reports a client or a server error.
pub fn status_is_error(status: u16) -> (r: bool)
    ensures
        r == is_error_status(status),
{
    400 <= status && status <= 599
}

/// The message of an error that an error status gives rise to.
pub open spec fn status_message(status: u16) -> Seq<char> {
    "unexpected status "@ + decimal(status as nat)
}

/// Words an error status as a message.
pub fn describe_status(status: u16) -> (r: String)
    ensures
        r@ == status_message(status),
{
    let code = to_decimal(status as u64);
    join("unexpected status ", code.as_str())
}

} // verus!
