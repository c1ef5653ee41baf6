use vaultwarden_ldap::http::{Field, HttpSettings, Method, Payload, Reply, Request};
use vaultwarden_ldap::vw_admin::{
    check, is_expired, Client, Progress, ResponseError, User, COOKIE_LIFESPAN, DISABLED_STATUS,
};

fn client() -> Client {
    Client::new(String::from("https://vault.example.org"), String::from("t0ken"), String::new())
}

fn login_request() -> Request {
    Request {
        method: Method::Post,
        url: String::from("https://vault.example.org/admin/"),
        cookie: None,
        payload: Payload::Form(vec![Field {
            name: String::from("token"),
            value: String::from("t0ken"),
        }]),
    }
}

fn redirect_with(cookie: &str) -> Reply {
    Reply { status: 303, set_cookie: Some(String::from(cookie)) }
}

fn ok() -> Reply {
    Reply { status: 200, set_cookie: None }
}

/// A client that logged in at `at` and holds the cookie `cookie`.
fn logged_in(at: u64, cookie: &str) -> Client {
    let mut client = client();
    let first = client.users(at);
    assert_eq!(first, login_request());
    match client.receive(Ok(redirect_with(cookie))) {
        Progress::Send(_) => {}
        other => panic!("the call should go on: {:?}", other),
    }
    match client.receive(Ok(ok())) {
        Progress::Done(Ok(_)) => {}
        other => panic!("the call should be done: {:?}", other),
    }
    client
}

#[test]
fn lifespan_is_twenty_minutes_in_nanoseconds() {
    assert_eq!(COOKIE_LIFESPAN, 20 * 60 * 1_000_000_000);
}

#[test]
fn status_two_marks_a_disabled_user() {
    assert_eq!(DISABLED_STATUS, 2);
    assert!(User::new(String::from("a@x.com"), 2).is_disabled());
    assert!(!User::new(String::from("a@x.com"), 0).is_disabled());
    assert!(!User::new(String::from("a@x.com"), 1).is_disabled());
    assert!(!User::new(String::from("a@x.com"), -2).is_disabled());
}

#[test]
fn user_gives_its_email_as_it_is() {
    assert_eq!(User::new(String::from("Some.One@X.com"), 0).get_email(), "Some.One@X.com");
}

#[test]
fn expiry_is_reached_at_the_lifespan() {
    assert!(!is_expired(100, 100, 10));
    assert!(!is_expired(100, 109, 10));
    assert!(is_expired(100, 110, 10));
    assert!(is_expired(100, 111, 10));
    assert!(is_expired(0, u64::MAX, u64::MAX));
    assert!(!is_expired(1, u64::MAX, u64::MAX));
}

#[test]
fn a_clock_that_went_back_gives_age_zero() {
    assert!(!is_expired(100, 50, 10));
    assert!(!is_expired(100, 0, 1));
    assert!(is_expired(100, 50, 0));
}

#[test]
fn a_new_client_has_no_session() {
    let client = client();
    assert!(client.cookie_expired(0));
    assert!(client.cookie_expired(u64::MAX));
}

#[test]
fn transport_follows_no_redirects() {
    assert_eq!(
        client().get_http_client(),
        HttpSettings { follow_redirects: false, root_cert_file: None }
    );
    let with_cert = Client::new(
        String::from("https://vault.example.org"),
        String::from("t0ken"),
        String::from("/etc/root.der"),
    );
    assert_eq!(
        with_cert.get_http_client(),
        HttpSettings {
            follow_redirects: false,
            root_cert_file: Some(String::from("/etc/root.der")),
        }
    );
}

#[test]
fn login_posts_the_token_as_a_form() {
    let mut client = client();
    assert_eq!(client.auth(5), login_request());
}

#[test]
fn login_stores_the_cookie_with_the_time_it_was_begun() {
    let mut client = client();
    client.auth(1000);
    assert_eq!(client.finish_auth(Ok(redirect_with("sid=1"))), Ok(()));
    assert!(!client.cookie_expired(1000));
    assert!(!client.cookie_expired(1000 + COOKIE_LIFESPAN - 1));
    assert!(client.cookie_expired(1000 + COOKIE_LIFESPAN));
}

#[test]
fn login_fails_without_a_reply() {
    let mut client = client();
    client.auth(1);
    assert_eq!(
        client.finish_auth(Err(String::from("connection refused"))),
        Err(ResponseError::AuthError(String::from("connection refused")))
    );
    assert!(client.cookie_expired(1));
}

#[test]
fn login_fails_on_an_error_status() {
    let mut client = client();
    client.auth(1);
    assert_eq!(
        client.finish_auth(Ok(Reply { status: 401, set_cookie: Some(String::from("sid=1")) })),
        Err(ResponseError::AuthError(String::from("unexpected status 401")))
    );
    assert!(client.cookie_expired(1));
}

#[test]
fn login_fails_without_a_cookie() {
    let mut client = client();
    client.auth(1);
    assert_eq!(
        client.finish_auth(Ok(Reply { status: 200, set_cookie: None })),
        Err(ResponseError::AuthError(String::from("Could not read authentication cookie")))
    );
    assert!(client.cookie_expired(1));
}

#[test]
fn failed_login_keeps_the_old_cookie() {
    let mut client = logged_in(0, "sid=old");
    client.auth(10);
    assert!(client.finish_auth(Err(String::from("down"))).is_err());
    let request = client.get("/users", 20);
    assert_eq!(request.cookie, Some(String::from("sid=old")));
}

#[test]
fn new_login_replaces_the_cookie() {
    let mut client = logged_in(0, "sid=old");
    client.auth(10);
    assert_eq!(client.finish_auth(Ok(redirect_with("sid=new"))), Ok(()));
    let request = client.get("/users", 20);
    assert_eq!(request.cookie, Some(String::from("sid=new")));
}

#[test]
fn fresh_session_is_reused_without_login() {
    let mut client = logged_in(1_000, "sid=1");
    for now in [1_000, 1_001, 1_000 + COOKIE_LIFESPAN / 2, 1_000 + COOKIE_LIFESPAN - 1] {
        assert!(!client.cookie_expired(now));
        assert_eq!(client.ensure_auth(now), None);
        let request = client.get("/users", now);
        assert_eq!(
            request,
            Request {
                method: Method::Get,
                url: String::from("https://vault.example.org/admin/users"),
                cookie: Some(String::from("sid=1")),
                payload: Payload::Empty,
            }
        );
        assert_eq!(client.receive(Ok(ok())), Progress::Done(Ok(ok())));
    }
}

#[test]
fn stale_session_logs_in_exactly_once_before_the_call() {
    let mut client = logged_in(1_000, "sid=1");
    let now = 1_000 + COOKIE_LIFESPAN;
    assert!(client.cookie_expired(now));
    let first = client.invite("new@x.com", now);
    assert_eq!(first, login_request());
    let second = client.receive(Ok(redirect_with("sid=2")));
    assert_eq!(
        second,
        Progress::Send(Request {
            method: Method::Post,
            url: String::from("https://vault.example.org/admin/invite"),
            cookie: Some(String::from("sid=2")),
            payload: Payload::Json(vec![Field {
                name: String::from("email"),
                value: String::from("new@x.com"),
            }]),
        })
    );
    assert_eq!(client.receive(Ok(ok())), Progress::Done(Ok(ok())));
    assert!(!client.cookie_expired(now));
    assert_eq!(client.ensure_auth(now), None);
}

#[test]
fn ensure_auth_asks_for_login_when_due() {
    let mut client = client();
    assert_eq!(client.ensure_auth(7), Some(login_request()));
    let mut client = logged_in(0, "sid=1");
    assert_eq!(client.ensure_auth(COOKIE_LIFESPAN - 1), None);
    assert_eq!(client.ensure_auth(COOKIE_LIFESPAN), Some(login_request()));
}

#[test]
fn call_ends_when_its_login_fails() {
    let mut client = client();
    assert_eq!(client.users(0), login_request());
    assert_eq!(
        client.receive(Ok(Reply { status: 500, set_cookie: None })),
        Progress::Done(Err(ResponseError::AuthError(String::from("unexpected status 500"))))
    );
    // The next outcome would be that of a call, not of a login.
    assert_eq!(client.receive(Ok(ok())), Progress::Done(Ok(ok())));
}

#[test]
fn call_without_reply_is_a_transport_error() {
    let mut client = logged_in(0, "sid=1");
    client.get("/users", 1);
    assert_eq!(
        client.receive(Err(String::from("dns failure"))),
        Progress::Done(Err(ResponseError::TransportError(String::from("dns failure"))))
    );
}

#[test]
fn call_with_error_status_is_an_api_error() {
    let mut client = logged_in(0, "sid=1");
    client.get("/users", 1);
    assert_eq!(
        client.receive(Ok(Reply { status: 401, set_cookie: None })),
        Progress::Done(Err(ResponseError::ApiError(String::from("unexpected status 401"))))
    );
    // An unauthorized call does not make the client log in again.
    assert!(!client.cookie_expired(2));
    assert_eq!(client.get("/users", 2).cookie, Some(String::from("sid=1")));
}

#[test]
fn check_judges_an_outcome() {
    assert_eq!(check(Ok(ok())), Ok(ok()));
    assert_eq!(check(Ok(redirect_with("x"))), Ok(redirect_with("x")));
    assert_eq!(
        check(Ok(Reply { status: 404, set_cookie: None })),
        Err(ResponseError::ApiError(String::from("unexpected status 404")))
    );
    assert_eq!(
        check(Err(String::from("tls handshake"))),
        Err(ResponseError::TransportError(String::from("tls handshake")))
    );
}

#[test]
fn post_sends_json_below_admin() {
    let mut client = logged_in(0, "sid=1");
    let request = client.post(
        "/invite",
        vec![Field { name: String::from("email"), value: String::from("x@y.z") }],
        1,
    );
    assert_eq!(request.method, Method::Post);
    assert_eq!(request.url, "https://vault.example.org/admin/invite");
    assert_eq!(request.cookie, Some(String::from("sid=1")));
    assert_eq!(
        request.payload,
        Payload::Json(vec![Field { name: String::from("email"), value: String::from("x@y.z") }])
    );
}

#[test]
fn a_call_begun_anew_drops_the_call_that_waited() {
    let mut client = logged_in(0, "sid=1");
    // Stale: the listing waits for a login.
    assert_eq!(client.users(COOKIE_LIFESPAN), login_request());
    // Begun again while the cookie is judged at an earlier time: sent at once.
    let request = client.get("/users", 5);
    assert_eq!(request.cookie, Some(String::from("sid=1")));
    assert_eq!(client.receive(Ok(ok())), Progress::Done(Ok(ok())));
}

#[test]
fn unreadable_listing_is_a_decode_error() {
    assert_eq!(
        Client::read_users(Err(String::from("missing field `Email`"))),
        Err(ResponseError::DecodeError(String::from("missing field `Email`")))
    );
    assert_eq!(
        Client::read_users(Ok(vec![User::new(String::from("a@x.com"), 1)])),
        Ok(vec![User::new(String::from("a@x.com"), 1)])
    );
    assert_eq!(Client::read_users(Ok(Vec::new())), Ok(Vec::new()));
}
