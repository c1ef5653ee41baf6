use vaultwarden_ldap::config::Config;
use vaultwarden_ldap::directory::DirectoryRecord;
use vaultwarden_ldap::http::{Method, Payload, Reply, Request};
use vaultwarden_ldap::report::{Notice, PassError, PerUserInviteError, Verdict};
use vaultwarden_ldap::sync::{
    invite_users, start_sync_loop, Action, Event, FailureBudget, Stage, Step, Supervisor,
    FAIL_LIMIT,
};
use vaultwarden_ldap::vw_admin::{Client, ResponseError, User, COOKIE_LIFESPAN};

fn config() -> Config {
    Config {
        vaultwarden_url: String::from("https://vault.example.org"),
        vaultwarden_admin_token: Some(String::from("t0ken")),
        vaultwarden_admin_token_file: None,
        vaultwarden_root_cert_file: None,
        ldap_host: String::from("ldap.example.org"),
        ldap_scheme: None,
        ldap_ssl: None,
        ldap_starttls: None,
        ldap_port: None,
        ldap_no_tls_verify: None,
        ldap_bind_dn: None,
        ldap_bind_password: None,
        ldap_bind_password_file: None,
        ldap_search_base_dn: String::from("dc=example,dc=org"),
        ldap_search_filter: String::from("(objectClass=person)"),
        ldap_mail_field: None,
        ldap_sync_interval_seconds: Some(30),
        ldap_sync_loop: None,
    }
}

fn machine(looping: bool) -> Supervisor {
    let config = config();
    let client = Client::new(
        config.get_vaultwarden_url(),
        config.get_vaultwarden_admin_token(""),
        config.get_vaultwarden_root_cert_file(),
    );
    invite_users(&config, client, None, looping)
}

/// The server and the directory that a run talks to.
struct World {
    /// The addresses that the server lists.
    roster: Vec<String>,
    /// The directory's mail addresses, one record each; `None` for a record
    /// without one.
    directory: Vec<Option<String>>,
    /// The addresses whose invitation the server refuses.
    refused: Vec<String>,
    /// Whether the server refuses to list its users.
    listing_fails: bool,
    /// Whether the listing's body cannot be read.
    listing_unreadable: bool,
    /// Whether the directory cannot be searched.
    search_fails: bool,
    /// The clock.
    now: u64,
    /// By how much the clock goes on with every exchange.
    tick: u64,
    logins: usize,
    listings: usize,
    searches: usize,
    /// The addresses that an invitation was sent for, in order.
    invitations: Vec<String>,
    sleeps: Vec<u64>,
    notices: Vec<Notice>,
}

fn world(roster: &[&str], directory: &[Option<&str>]) -> World {
    World {
        roster: roster.iter().map(|e| String::from(*e)).collect(),
        directory: directory.iter().map(|e| e.map(String::from)).collect(),
        refused: Vec::new(),
        listing_fails: false,
        listing_unreadable: false,
        search_fails: false,
        now: 0,
        tick: 1,
        logins: 0,
        listings: 0,
        searches: 0,
        invitations: Vec::new(),
        sleeps: Vec::new(),
        notices: Vec::new(),
    }
}

fn invited_address(request: &Request) -> String {
    match &request.payload {
        Payload::Json(fields) => {
            assert_eq!(fields.len(), 1);
            assert_eq!(fields[0].name, "email");
            fields[0].value.clone()
        }
        other => panic!("an invitation carries JSON: {:?}", other),
    }
}

impl World {
    fn exchange(&mut self, request: &Request) -> Result<Reply, String> {
        self.now += self.tick;
        if request.url == "https://vault.example.org/admin/" {
            assert_eq!(request.method, Method::Post);
            assert_eq!(request.cookie, None);
            self.logins += 1;
            return Ok(Reply { status: 303, set_cookie: Some(format!("sid={}", self.logins)) });
        }
        assert_eq!(request.cookie, Some(format!("sid={}", self.logins)));
        if request.url == "https://vault.example.org/admin/users" {
            assert_eq!(request.method, Method::Get);
            assert_eq!(request.payload, Payload::Empty);
            self.listings += 1;
            let status = if self.listing_fails { 500 } else { 200 };
            return Ok(Reply { status, set_cookie: None });
        }
        assert_eq!(request.url, "https://vault.example.org/admin/invite");
        assert_eq!(request.method, Method::Post);
        let email = invited_address(request);
        self.invitations.push(email.clone());
        if self.refused.contains(&email) {
            return Ok(Reply { status: 500, set_cookie: None });
        }
        self.roster.push(email);
        Ok(Reply { status: 200, set_cookie: None })
    }

    fn users(&self) -> Result<Vec<User>, String> {
        if self.listing_unreadable {
            return Err(String::from("expected value at line 1 column 1"));
        }
        Ok(self.roster.iter().map(|email| User::new(email.clone(), 0)).collect())
    }

    fn entries(&mut self) -> Result<Vec<DirectoryRecord>, String> {
        self.searches += 1;
        if self.search_fails {
            return Err(String::from("bind failed"));
        }
        Ok(self
            .directory
            .iter()
            .map(|mail| {
                let mut record = DirectoryRecord::new();
                record.insert(String::from("uid"), vec![String::from("someone")]);
                if let Some(mail) = mail {
                    record.insert(String::from("mail"), vec![mail.clone()]);
                }
                record
            })
            .collect())
    }

    /// Performs `step` and says what to report, or how the run ended.
    fn perform(&mut self, step: Step) -> Result<Event, Result<(), PassError>> {
        self.notices.extend(step.notices);
        match step.action {
            Action::Send(request) => Ok(Event::Exchanged(self.exchange(&request))),
            Action::ReadUsers => Ok(Event::Users(self.users())),
            Action::Search(_) => Ok(Event::Entries(self.entries())),
            Action::Sleep(seconds) => {
                self.sleeps.push(seconds);
                Ok(Event::Wake)
            }
            Action::Stop(result) => Err(result),
            Action::Wait => panic!("the machine was given an event out of turn"),
        }
    }

    /// Runs `sync` until it stops or has slept `naps` times.
    fn run(&mut self, sync: &mut Supervisor, naps: usize) -> Option<Result<(), PassError>> {
        let mut event = Event::Wake;
        loop {
            let step = sync.step(event, self.now);
            match self.perform(step) {
                Ok(next) => event = next,
                Err(result) => return Some(result),
            }
            if self.sleeps.len() >= naps && matches!(event, Event::Wake) {
                return None;
            }
        }
    }
}

#[test]
fn failure_limit_is_five() {
    assert_eq!(FAIL_LIMIT, 5);
}

#[test]
fn budget_is_spent_by_the_sixth_failure_in_a_row() {
    let mut budget = FailureBudget::new();
    assert_eq!(budget.count(), 0);
    for n in 1..=5 {
        assert!(!budget.record_failure());
        assert_eq!(budget.count(), n);
    }
    assert!(budget.record_failure());
    assert_eq!(budget.count(), 6);
    assert!(budget.record_failure());
    assert_eq!(budget.count(), 6);
}

#[test]
fn budget_is_restored_by_a_success() {
    let mut budget = FailureBudget::new();
    for _ in 0..5 {
        assert!(!budget.record_failure());
    }
    budget.record_success();
    assert_eq!(budget.count(), 0);
    for _ in 0..5 {
        assert!(!budget.record_failure());
    }
    assert!(budget.record_failure());
}

#[test]
fn a_new_machine_rests() {
    let sync = machine(true);
    assert_eq!(sync.stage(), Stage::Resting);
    assert_eq!(sync.failures(), 0);
    assert_eq!(sync.outcome().invited, 0);
    assert_eq!(sync.outcome().failed, 0);
    assert_eq!(sync.outcome().already_existing.len(), 0);
    let looping = start_sync_loop(
        &config(),
        Client::new(String::from("u"), String::from("t"), String::new()),
        None,
    );
    assert_eq!(looping.stage(), Stage::Resting);
}

#[test]
fn invites_only_the_missing_user() {
    let mut world = world(&["a@x.com", "B@x.com"], &[Some("A@x.com"), Some("c@x.com")]);
    let mut sync = machine(false);
    let result = world.run(&mut sync, 0);
    assert_eq!(result, Some(Ok(())));
    assert_eq!(world.invitations, vec!["c@x.com"]);
    assert_eq!(sync.outcome().invited, 1);
    assert_eq!(sync.outcome().failed, 0);
    assert_eq!(sync.outcome().already_existing.len(), 1);
    assert!(sync.outcome().already_existing.contains("a@x.com"));
    assert_eq!(sync.stage(), Stage::Stopped);
    assert_eq!(world.logins, 1);
    assert_eq!(world.listings, 1);
    assert_eq!(world.searches, 1);
    assert_eq!(
        world.notices,
        vec![
            Notice::ExistingUser { email: String::from("a@x.com"), disabled: false },
            Notice::ExistingUser { email: String::from("B@x.com"), disabled: false },
            Notice::Record(Verdict::AlreadyExists(String::from("A@x.com"))),
            Notice::Record(Verdict::Invite(String::from("c@x.com"))),
            Notice::Sent(1),
        ]
    );
}

#[test]
fn record_without_mail_sends_nothing_and_does_not_fail_the_pass() {
    let mut world = world(&[], &[None, Some("c@x.com"), None]);
    let mut sync = machine(false);
    assert_eq!(world.run(&mut sync, 0), Some(Ok(())));
    assert_eq!(world.invitations, vec!["c@x.com"]);
    assert_eq!(sync.outcome().invited, 1);
    assert_eq!(sync.outcome().failed, 0);
    assert_eq!(
        world.notices,
        vec![
            Notice::Record(Verdict::MissingMail(Some(String::from("someone")))),
            Notice::Record(Verdict::Invite(String::from("c@x.com"))),
            Notice::Record(Verdict::MissingMail(Some(String::from("someone")))),
            Notice::Sent(1),
        ]
    );
}

#[test]
fn directory_of_records_without_mail_is_a_pass_without_invitations() {
    let mut world = world(&["a@x.com"], &[None, None]);
    let mut sync = machine(false);
    assert_eq!(world.run(&mut sync, 0), Some(Ok(())));
    assert!(world.invitations.is_empty());
    assert_eq!(sync.outcome().invited, 0);
}

#[test]
fn one_failed_invitation_of_three_leaves_two_sent() {
    let mut world = world(&[], &[Some("a@x.com"), Some("b@x.com"), Some("c@x.com")]);
    world.refused.push(String::from("b@x.com"));
    let mut sync = machine(false);
    assert_eq!(world.run(&mut sync, 0), Some(Ok(())));
    assert_eq!(world.invitations, vec!["a@x.com", "b@x.com", "c@x.com"]);
    assert_eq!(sync.outcome().invited, 2);
    assert_eq!(sync.outcome().failed, 1);
    assert!(world.notices.contains(&Notice::InviteFailed(PerUserInviteError {
        email: String::from("b@x.com"),
        cause: ResponseError::ApiError(String::from("unexpected status 500")),
    })));
    assert_eq!(world.notices.last(), Some(&Notice::Sent(2)));
}

#[test]
fn failed_invitations_do_not_count_against_the_budget() {
    let mut world = world(&[], &[Some("a@x.com"), Some("b@x.com")]);
    world.refused.push(String::from("a@x.com"));
    world.refused.push(String::from("b@x.com"));
    let mut sync = machine(true);
    assert_eq!(world.run(&mut sync, 3), None);
    assert_eq!(sync.failures(), 0);
    assert_eq!(world.invitations.len(), 6);
    assert_eq!(sync.outcome().invited, 0);
    assert_eq!(sync.outcome().failed, 2);
}

#[test]
fn failed_listing_invites_nobody() {
    let mut world = world(&[], &[Some("a@x.com")]);
    world.listing_fails = true;
    let mut sync = machine(false);
    assert_eq!(
        world.run(&mut sync, 0),
        Some(Err(PassError::Users(ResponseError::ApiError(String::from(
            "unexpected status 500"
        )))))
    );
    assert!(world.invitations.is_empty());
    assert_eq!(world.searches, 0);
    assert_eq!(sync.stage(), Stage::Stopped);
    assert_eq!(
        world.notices,
        vec![Notice::PassFailed {
            count: 0,
            error: PassError::Users(ResponseError::ApiError(String::from(
                "unexpected status 500"
            ))),
        }]
    );
}

#[test]
fn unreadable_listing_invites_nobody() {
    let mut world = world(&[], &[Some("a@x.com")]);
    world.listing_unreadable = true;
    let mut sync = machine(false);
    assert_eq!(
        world.run(&mut sync, 0),
        Some(Err(PassError::Users(ResponseError::DecodeError(String::from(
            "expected value at line 1 column 1"
        )))))
    );
    assert!(world.invitations.is_empty());
    assert_eq!(world.searches, 0);
}

#[test]
fn failed_login_gives_up_the_pass() {
    let mut sync = machine(false);
    let step = sync.step(Event::Wake, 0);
    assert!(matches!(step.action, Action::Send(_)));
    let step = sync.step(Event::Exchanged(Err(String::from("connection refused"))), 1);
    assert_eq!(
        step.action,
        Action::Stop(Err(PassError::Users(ResponseError::AuthError(String::from(
            "connection refused"
        )))))
    );
    assert_eq!(sync.stage(), Stage::Stopped);
}

#[test]
fn listing_without_reply_is_a_transport_error() {
    let mut sync = machine(false);
    sync.step(Event::Wake, 0);
    sync.step(Event::Exchanged(Ok(Reply { status: 303, set_cookie: Some(String::from("s")) })), 1);
    let step = sync.step(Event::Exchanged(Err(String::from("reset by peer"))), 2);
    assert_eq!(
        step.action,
        Action::Stop(Err(PassError::Users(ResponseError::TransportError(String::from(
            "reset by peer"
        )))))
    );
}

#[test]
fn failed_search_gives_up_the_pass() {
    let mut world = world(&[], &[Some("a@x.com")]);
    world.search_fails = true;
    let mut sync = machine(false);
    assert_eq!(
        world.run(&mut sync, 0),
        Some(Err(PassError::DirectoryError(String::from("bind failed"))))
    );
    assert!(world.invitations.is_empty());
}

#[test]
fn loop_outlives_five_failed_passes_and_ends_with_the_sixth() {
    let mut world = world(&[], &[Some("a@x.com")]);
    world.listing_fails = true;
    let mut sync = machine(true);
    assert_eq!(world.run(&mut sync, 5), None);
    assert_eq!(world.listings, 5);
    assert_eq!(sync.failures(), 5);
    assert_eq!(sync.stage(), Stage::Resting);
    assert_eq!(world.sleeps, vec![30, 30, 30, 30, 30]);
    let result = world.run(&mut sync, 6);
    assert_eq!(
        result,
        Some(Err(PassError::Users(ResponseError::ApiError(String::from(
            "unexpected status 500"
        )))))
    );
    assert_eq!(world.listings, 6);
    assert_eq!(sync.stage(), Stage::Stopped);
    assert_eq!(world.sleeps.len(), 5);
    assert!(world.invitations.is_empty());
    let counts: Vec<u64> = world
        .notices
        .iter()
        .map(|notice| match notice {
            Notice::PassFailed { count, .. } => *count,
            other => panic!("unexpected notice {:?}", other),
        })
        .collect();
    assert_eq!(counts, vec![0, 1, 2, 3, 4, 5]);
}

#[test]
fn a_pass_that_goes_through_restores_the_budget() {
    let mut world = world(&[], &[]);
    world.listing_fails = true;
    let mut sync = machine(true);
    assert_eq!(world.run(&mut sync, 5), None);
    assert_eq!(sync.failures(), 5);
    world.listing_fails = false;
    assert_eq!(world.run(&mut sync, 6), None);
    assert_eq!(sync.failures(), 0);
    world.listing_fails = true;
    assert_eq!(world.run(&mut sync, 11), None);
    assert_eq!(sync.failures(), 5);
    assert!(world.run(&mut sync, 12).is_some());
}

#[test]
fn single_pass_forgives_nothing() {
    let mut world = world(&[], &[]);
    world.search_fails = true;
    let mut sync = machine(false);
    assert!(matches!(world.run(&mut sync, 10), Some(Err(_))));
    assert!(world.sleeps.is_empty());
    assert_eq!(world.searches, 1);
    assert_eq!(sync.failures(), 0);
}

#[test]
fn second_run_invites_nobody() {
    let mut world =
        world(&["a@x.com"], &[Some("A@x.com"), Some("c@x.com"), None, Some("D@x.com")]);
    let mut first = machine(false);
    assert_eq!(world.run(&mut first, 0), Some(Ok(())));
    assert_eq!(world.invitations, vec!["c@x.com", "D@x.com"]);
    assert_eq!(first.outcome().invited, 2);
    let mut second = machine(false);
    assert_eq!(world.run(&mut second, 0), Some(Ok(())));
    assert_eq!(world.invitations, vec!["c@x.com", "D@x.com"]);
    assert_eq!(second.outcome().invited, 0);
    assert_eq!(second.outcome().failed, 0);
    assert_eq!(second.outcome().already_existing.len(), 3);
}

#[test]
fn second_pass_of_a_loop_invites_nobody() {
    let mut world = world(&[], &[Some("c@x.com"), Some("C@x.com")]);
    let mut sync = machine(true);
    assert_eq!(world.run(&mut sync, 2), None);
    assert_eq!(world.invitations, vec!["c@x.com"]);
    assert_eq!(world.listings, 2);
    assert_eq!(world.logins, 1);
    assert_eq!(sync.outcome().invited, 0);
    assert_eq!(sync.outcome().already_existing.len(), 1);
}

#[test]
fn session_is_renewed_between_invitations_when_it_runs_out() {
    let mut world = world(&[], &[Some("a@x.com"), Some("b@x.com"), Some("c@x.com")]);
    // Every exchange takes half a lifespan.
    world.tick = COOKIE_LIFESPAN / 2;
    let mut sync = machine(false);
    assert_eq!(world.run(&mut sync, 0), Some(Ok(())));
    assert_eq!(world.invitations, vec!["a@x.com", "b@x.com", "c@x.com"]);
    assert_eq!(sync.outcome().invited, 3);
    // Login at 0 (cookie made at 0), listing ends at 1 lifespan: the first
    // invitation needs a new login, begun at 1; that login and the
    // invitation take until 2, so the second needs one as well, and so does
    // the third.
    assert_eq!(world.logins, 4);
}

#[test]
fn event_out_of_turn_changes_nothing() {
    let mut sync = machine(true);
    let step = sync.step(Event::Users(Ok(Vec::new())), 0);
    assert_eq!(step.action, Action::Wait);
    assert!(step.notices.is_empty());
    assert_eq!(sync.stage(), Stage::Resting);
    let step = sync.step(Event::Exchanged(Ok(Reply { status: 200, set_cookie: None })), 0);
    assert_eq!(step.action, Action::Wait);
    let step = sync.step(Event::Entries(Ok(Vec::new())), 0);
    assert_eq!(step.action, Action::Wait);
    let step = sync.step(Event::Wake, 0);
    assert!(matches!(step.action, Action::Send(_)));
    assert_eq!(sync.stage(), Stage::Listing);
    let step = sync.step(Event::Wake, 0);
    assert_eq!(step.action, Action::Wait);
    assert_eq!(sync.stage(), Stage::Listing);
}

#[test]
fn stopped_machine_stays_stopped() {
    let mut world = world(&[], &[]);
    let mut sync = machine(false);
    assert_eq!(world.run(&mut sync, 0), Some(Ok(())));
    assert_eq!(sync.stage(), Stage::Stopped);
    assert_eq!(sync.step(Event::Wake, 0).action, Action::Wait);
    assert_eq!(sync.stage(), Stage::Stopped);
}

#[test]
fn search_is_the_one_the_settings_describe() {
    let mut sync = machine(false);
    sync.step(Event::Wake, 0);
    sync.step(Event::Exchanged(Ok(Reply { status: 303, set_cookie: Some(String::from("s")) })), 0);
    let step = sync.step(Event::Exchanged(Ok(Reply { status: 200, set_cookie: None })), 0);
    assert_eq!(step.action, Action::ReadUsers);
    assert_eq!(sync.stage(), Stage::Reading);
    let step = sync.step(Event::Users(Ok(vec![User::new(String::from("a@x.com"), 2)])), 0);
    assert_eq!(
        step.notices,
        vec![Notice::ExistingUser { email: String::from("a@x.com"), disabled: true }]
    );
    match step.action {
        Action::Search(search) => {
            assert_eq!(search.connection.url, "ldap://ldap.example.org:389");
            assert_eq!(search.base_dn, "dc=example,dc=org");
            assert_eq!(search.filter, "(objectClass=person)");
            assert_eq!(search.attributes, vec!["uid", "givenname", "sn", "cn", "mail"]);
        }
        other => panic!("a search was due: {:?}", other),
    }
    assert_eq!(sync.stage(), Stage::Searching);
}

#[test]
fn failed_login_before_an_invitation_costs_that_invitation_only() {
    let mut sync = machine(false);
    // The pass begins with a login, which brings a cookie made at 0.
    assert!(matches!(sync.step(Event::Wake, 0).action, Action::Send(_)));
    let reply = Reply { status: 303, set_cookie: Some(String::from("sid=1")) };
    assert!(matches!(sync.step(Event::Exchanged(Ok(reply)), 1).action, Action::Send(_)));
    let listed = sync.step(Event::Exchanged(Ok(Reply { status: 200, set_cookie: None })), 2);
    assert_eq!(listed.action, Action::ReadUsers);
    assert!(matches!(sync.step(Event::Users(Ok(Vec::new())), 3).action, Action::Search(_)));
    let mut first = DirectoryRecord::new();
    first.insert(String::from("mail"), vec![String::from("a@x.com")]);
    let mut second = DirectoryRecord::new();
    second.insert(String::from("mail"), vec![String::from("b@x.com")]);
    // The search takes longer than the cookie lasts: a login is due.
    let late = 4 + COOKIE_LIFESPAN;
    let step = sync.step(Event::Entries(Ok(vec![first, second])), late);
    match &step.action {
        Action::Send(request) => assert_eq!(request.url, "https://vault.example.org/admin/"),
        other => panic!("a login was due: {:?}", other),
    }
    // The login fails: the first invitation has failed, the second is begun,
    // again with a login.
    let step = sync.step(Event::Exchanged(Err(String::from("timed out"))), late + 1);
    assert_eq!(
        step.notices,
        vec![Notice::InviteFailed(PerUserInviteError {
            email: String::from("a@x.com"),
            cause: ResponseError::AuthError(String::from("timed out")),
        })]
    );
    match &step.action {
        Action::Send(request) => assert_eq!(request.url, "https://vault.example.org/admin/"),
        other => panic!("a login was due: {:?}", other),
    }
    assert_eq!(sync.stage(), Stage::Inviting);
    let reply = Reply { status: 303, set_cookie: Some(String::from("sid=2")) };
    let step = sync.step(Event::Exchanged(Ok(reply)), late + 2);
    match &step.action {
        Action::Send(request) => {
            assert_eq!(request.url, "https://vault.example.org/admin/invite");
            assert_eq!(request.cookie, Some(String::from("sid=2")));
            assert_eq!(invited_address(request), "b@x.com");
        }
        other => panic!("an invitation was due: {:?}", other),
    }
    let step = sync.step(Event::Exchanged(Ok(Reply { status: 200, set_cookie: None })), late + 3);
    assert_eq!(step.notices, vec![Notice::Sent(1)]);
    assert_eq!(step.action, Action::Stop(Ok(())));
    assert_eq!(sync.outcome().invited, 1);
    assert_eq!(sync.outcome().failed, 1);
}

#[test]
fn invitation_without_reply_is_tallied_as_failed() {
    let mut world = world(&[], &[Some("a@x.com")]);
    let mut sync = machine(false);
    let mut event = Event::Wake;
    loop {
        let step = sync.step(event, world.now);
        if let Action::Send(request) = &step.action {
            if request.url.ends_with("/invite") {
                break;
            }
        }
        event = world.perform(step).expect("the pass goes on");
    }
    let step = sync.step(Event::Exchanged(Err(String::from("broken pipe"))), world.now);
    assert_eq!(
        step.notices,
        vec![
            Notice::InviteFailed(PerUserInviteError {
                email: String::from("a@x.com"),
                cause: ResponseError::TransportError(String::from("broken pipe")),
            }),
            Notice::Sent(0),
        ]
    );
    assert_eq!(step.action, Action::Stop(Ok(())));
    assert_eq!(sync.outcome().invited, 0);
    assert_eq!(sync.outcome().failed, 1);
}
