//! The pass and its supervisor, as one state machine.
//!
//! A pass lists the server's users, searches the directory, invites the
//! directory users that the server does not know, one after the other, and
//! tallies what became of the invitations. In a loop, the supervisor lets a
//! pass follow a pass, with a pause between them, until more than
//! [`FAIL_LIMIT`] passes in a row were given up; otherwise it stops after
//! one pass.
//!
//! The machine does nothing by itself. [`Supervisor::step`] takes an [`Event`] and
//! answers with an [`Action`]; the driver performs the action and reports
//! what came of it as the next event. The first event is [`Event::Wake`].

use crate::config::Config;
use crate::directory::{
    search_entries, search_of, DirectoryRecord, SearchRequest, SearchRequestView,
};
use crate::http::{exchange_view, Exchange, Method, PayloadView, ReplyView, Request, RequestView};
use crate::model::{lemma_views_push, lemma_views_take_next, view_of, views};
use crate::plan::{candidates_of, invite_from_ldap, lemma_invitations_len, plan_of};
use crate::report::{
    EmailSet, Notice, NoticeView, Outcome, OutcomeView, PassError, PassErrorView,
    PerUserInviteError, Verdict, VerdictView,
};
use crate::roster::{get_existing_users, roster_keys, roster_notices};
use crate::vw_admin::{
    read_result, Client, ClientView, Progress, ProgressView, User, UserView,
};
use vstd::prelude::*;

verus! {

/// The number of passes in a row that may be given up before the supervisor
/// gives up itself.
pub const FAIL_LIMIT: u64 = 5;

/// The count of failed passes in a row once one more has failed. The count
/// stands still once it is beyond the limit.
pub open spec fn failures_after(count: u64) -> u64 {
    if count > FAIL_LIMIT {
        count
    } else {
        (count + 1) as u64
    }
}

/// The count of failed passes in a row after `n` more have failed.
pub open spec fn failures_after_many(count: u64, n: nat) -> u64
    decreases n,
{
    if n == 0 {
        count
    } else {
        failures_after(failures_after_many(count, (n - 1) as nat))
    }
}

/// The supervisor's patience: how many passes in a row have failed.
pub struct FailureBudget {
    consecutive: u64,
}

impl View for FailureBudget {
    type V = u64;

    closed spec fn view(&self) -> u64 {
        self.consecutive
    }
}

impl FailureBudget {
    /// A budget that nothing was taken from.
    pub fn new() -> (r: FailureBudget)
        ensures
            r@ == 0,
    {
        FailureBudget { consecutive: 0 }
    }

    /// The number of passes in a row that have failed.
    pub fn count(&self) -> (r: u64)
        ensures
            r == self@,
    {
        self.consecutive
    }

    /// Notes a pass that went through.
    pub fn record_success(&mut self)
        ensures
            final(self)@ == 0,
    {
        self.consecutive = 0;
    }

    /// Notes a pass that was given up, and says whether that was one too
    /// many.
    pub fn record_failure(&mut self) -> (exhausted: bool)
        ensures
            final(self)@ == failures_after(old(self)@),
            exhausted == (final(self)@ > FAIL_LIMIT),
    {
        if self.consecutive <= FAIL_LIMIT {
            self.consecutive = self.consecutive + 1;
        }
        self.consecutive > FAIL_LIMIT
    }
}

/// What the machine waits for.
#[derive(Clone, Copy, Debug, PartialEq, Eq, Structural)]
pub enum Stage {
    /// Between two passes, or before the first: waits for [`Event::Wake`].
    Resting,
    /// The listing of the server's users is under way: waits for
    /// [`Event::Exchanged`].
    Listing,
    /// The listing was answered: waits for [`Event::Users`].
    Reading,
    /// The directory is being searched: waits for [`Event::Entries`].
    Searching,
    /// An invitation is under way: waits for [`Event::Exchanged`].
    Inviting,
    /// The run is over: waits for nothing.
    Stopped,
}

/// What the driver reports.
pub enum Event {
    /// The pause is over. Also the first event of a run.
    Wake,
    /// How the exchange asked for by [`Action::Send`] ended.
    Exchanged(Exchange),
    /// The users that [`Action::ReadUsers`] found in the body of the last
    /// reply, or why the body could not be read as a listing of users.
    Users(Result<Vec<User>, String>),
    /// The records that [`Action::Search`] found, or why the search failed.
    Entries(Result<Vec<DirectoryRecord>, String>),
}

/// The model of an [`Event`]; a record is the map from its attributes'
/// names to their values.
pub enum EventView {
    Wake,
    Exchanged(Result<ReplyView, Seq<char>>),
    Users(Result<Seq<UserView>, Seq<char>>),
    Entries(Result<Seq<Map<Seq<char>, Seq<Seq<char>>>>, Seq<char>>),
}

impl View for Event {
    type V = EventView;

    open spec fn view(&self) -> EventView {
        match self {
            Event::Wake => EventView::Wake,
            Event::Exchanged(outcome) => EventView::Exchanged(exchange_view(*outcome)),
            Event::Users(Ok(users)) => EventView::Users(Ok(views(users@))),
            Event::Users(Err(cause)) => EventView::Users(Err(cause@)),
            Event::Entries(Ok(entries)) => EventView::Entries(Ok(views(entries@))),
            Event::Entries(Err(cause)) => EventView::Entries(Err(cause@)),
        }
    }
}

/// What the driver is to do next.
#[derive(Debug, PartialEq, Eq)]
pub enum Action {
    /// Send the request and report [`Event::Exchanged`].
    Send(Request),
    /// Read the body of the last reply as a listing of users and report
    /// [`Event::Users`].
    ReadUsers,
    /// Search the directory and report [`Event::Entries`].
    Search(SearchRequest),
    /// Pause for so many seconds and report [`Event::Wake`].
    Sleep(u64),
    /// End the run, with the error that is fatal to it if there is one.
    Stop(Result<(), PassError>),
    /// Nothing: the event was not the one awaited, and nothing has changed.
    Wait,
}

/// The model of an [`Action`].
pub enum ActionView {
    Send(RequestView),
    ReadUsers,
    Search(SearchRequestView),
    Sleep(u64),
    Stop(Result<(), PassErrorView>),
    Wait,
}

impl View for Action {
    type V = ActionView;

    open spec fn view(&self) -> ActionView {
        match self {
            Action::Send(request) => ActionView::Send(request@),
            Action::ReadUsers => ActionView::ReadUsers,
            Action::Search(search) => ActionView::Search(search@),
            Action::Sleep(seconds) => ActionView::Sleep(*seconds),
            Action::Stop(Ok(_)) => ActionView::Stop(Ok(())),
            Action::Stop(Err(error)) => ActionView::Stop(Err(error@)),
            Action::Wait => ActionView::Wait,
        }
    }
}

/// The machine's answer to an event.
#[derive(Debug, PartialEq, Eq)]
pub struct Step {
    /// What happened, in order.
    pub notices: Vec<Notice>,
    /// What to do next.
    pub action: Action,
}

/// The model of a [`Step`].
pub struct StepView {
    pub notices: Seq<NoticeView>,
    pub action: ActionView,
}

impl View for Step {
    type V = StepView;

    open spec fn view(&self) -> StepView {
        StepView { notices: views(self.notices@), action: self.action@ }
    }
}

/// One notice for each verdict, in order.
pub open spec fn record_notices(verdicts: Seq<VerdictView>) -> Seq<NoticeView> {
    verdicts.map_values(|verdict: VerdictView| NoticeView::Record(verdict))
}

/// The pass and its supervisor.
pub struct Supervisor {
    client: Client,
    search: SearchRequest,
    mail_field: String,
    interval: u64,
    looping: bool,
    budget: FailureBudget,
    stage: Stage,
    existing: EmailSet,
    queue: Vec<String>,
    next: usize,
    outcome: Outcome,
}

/// The model of a [`Supervisor`].
pub struct SupervisorView {
    /// The session with the server.
    pub client: ClientView,
    /// The search that every pass makes.
    pub search: SearchRequestView,
    /// The attribute that holds a record's mail address.
    pub mail_field: Seq<char>,
    /// The seconds between two passes.
    pub interval: u64,
    /// Whether a pass follows a pass.
    pub looping: bool,
    /// How many passes in a row have failed.
    pub failures: u64,
    pub stage: Stage,
    /// The addresses, in lowercase, that the server knew when this pass
    /// listed them.
    pub existing: Set<Seq<char>>,
    /// The addresses that this pass invites, in order.
    pub queue: Seq<Seq<char>>,
    /// How many of them were seen to.
    pub next: usize,
    /// The tally of this pass.
    pub outcome: OutcomeView,
}

impl View for Supervisor {
    type V = SupervisorView;

    closed spec fn view(&self) -> SupervisorView {
        SupervisorView {
            client: self.client@,
            search: self.search@,
            mail_field: self.mail_field@,
            interval: self.interval,
            looping: self.looping,
            failures: self.budget@,
            stage: self.stage,
            existing: self.existing@,
            queue: views(self.queue@),
            next: self.next,
            outcome: self.outcome@,
        }
    }
}

impl SupervisorView {
    /// The call that lists the server's users.
    pub open spec fn users_call(self) -> RequestView {
        self.client.call(Method::Get, "/users"@, PayloadView::Empty)
    }

    /// The call that invites `email`.
    pub open spec fn invite_call(self, email: Seq<char>) -> RequestView {
        self.client.call(Method::Post, "/invite"@, PayloadView::Json(seq![("email"@, email)]))
    }

    /// Every invitation seen to so far went through or failed.
    pub open spec fn tallied(self) -> bool {
        &&& self.next <= self.queue.len() <= usize::MAX
        &&& self.outcome.invited + self.outcome.failed == self.next
    }

    /// What holds of the machine between any two steps: the tally is
    /// complete, an invitation under way is one of the queue, and the call
    /// that waits for a login, if one does, is the one that the stage is
    /// about.
    pub open spec fn wf(self) -> bool {
        &&& self.tallied()
        &&& self.stage is Listing && self.client.queued is Some ==> self.client.queued == Some(
            self.users_call(),
        )
        &&& self.stage is Inviting ==> self.next < self.queue.len()
        &&& self.stage is Inviting && self.client.queued is Some ==> self.client.queued == Some(
            self.invite_call(self.queue[self.next as int]),
        )
    }

    /// An event out of turn changes nothing.
    pub open spec fn ignore(self) -> (SupervisorView, StepView) {
        (self, StepView { notices: Seq::empty(), action: ActionView::Wait })
    }

    /// A pass begins: what the last one left is cleared, and the listing of
    /// the server's users is begun.
    pub open spec fn begin_pass(self, now: u64) -> (SupervisorView, StepView) {
        let (client, request) = self.client.begin(self.users_call(), now);
        (
            SupervisorView {
                client,
                stage: Stage::Listing,
                existing: Set::empty(),
                queue: Seq::empty(),
                next: 0,
                outcome: OutcomeView::empty(),
                ..self
            },
            StepView { notices: Seq::empty(), action: ActionView::Send(request) },
        )
    }

    /// The pass is given up over `error`. In a loop that is one more failure
    /// in a row, and the run goes on after a pause unless that was one too
    /// many. Otherwise the run ends with the error.
    pub open spec fn fail(self, error: PassErrorView) -> (SupervisorView, StepView) {
        let notices = seq![NoticeView::PassFailed { count: self.failures, error }];
        if !self.looping {
            (
                SupervisorView { stage: Stage::Stopped, ..self },
                StepView { notices, action: ActionView::Stop(Err(error)) },
            )
        } else if failures_after(self.failures) > FAIL_LIMIT {
            (
                SupervisorView {
                    failures: failures_after(self.failures),
                    stage: Stage::Stopped,
                    ..self
                },
                StepView { notices, action: ActionView::Stop(Err(error)) },
            )
        } else {
            (
                SupervisorView {
                    failures: failures_after(self.failures),
                    stage: Stage::Resting,
                    ..self
                },
                StepView { notices, action: ActionView::Sleep(self.interval) },
            )
        }
    }

    /// The pass is through, `notices` being what the step has to say so far.
    /// In a loop no pass has failed in a row any more, and the run goes on
    /// after a pause. Otherwise the run ends.
    pub open spec fn finish(self, notices: Seq<NoticeView>) -> (SupervisorView, StepView) {
        let notices = notices.push(NoticeView::Sent(self.outcome.invited));
        if self.looping {
            (
                SupervisorView { failures: 0, stage: Stage::Resting, ..self },
                StepView { notices, action: ActionView::Sleep(self.interval) },
            )
        } else {
            (
                SupervisorView { stage: Stage::Stopped, ..self },
                StepView { notices, action: ActionView::Stop(Ok(())) },
            )
        }
    }

    /// The pass goes on, `notices` being what the step has to say so far:
    /// the next invitation of the queue is begun, or the pass is through.
    pub open spec fn advance(self, notices: Seq<NoticeView>, now: u64) -> (
        SupervisorView,
        StepView,
    ) {
        if self.next < self.queue.len() {
            let (client, request) = self.client.begin(
                self.invite_call(self.queue[self.next as int]),
                now,
            );
            (
                SupervisorView { client, stage: Stage::Inviting, ..self },
                StepView { notices, action: ActionView::Send(request) },
            )
        } else {
            self.finish(notices)
        }
    }

    /// An exchange of the listing has ended. The client says how the call
    /// goes on: with another request, with the reading of the reply's body,
    /// or not at all, which gives up the pass.
    pub open spec fn listed(self, outcome: Result<ReplyView, Seq<char>>) -> (
        SupervisorView,
        StepView,
    ) {
        let (client, progress) = self.client.receive(outcome);
        let next = SupervisorView { client, ..self };
        match progress {
            ProgressView::Send(request) => (
                next,
                StepView { notices: Seq::empty(), action: ActionView::Send(request) },
            ),
            ProgressView::Done(Ok(_)) => (
                SupervisorView { stage: Stage::Reading, ..next },
                StepView { notices: Seq::empty(), action: ActionView::ReadUsers },
            ),
            ProgressView::Done(Err(e)) => next.fail(PassErrorView::Users(e)),
        }
    }

    /// The listing was read. Its users' addresses are what the server knows,
    /// and the directory is searched next; a listing that could not be read
    /// gives up the pass.
    pub open spec fn read(self, result: Result<Seq<UserView>, Seq<char>>) -> (
        SupervisorView,
        StepView,
    ) {
        match read_result(result) {
            Ok(users) => (
                SupervisorView { existing: roster_keys(users), stage: Stage::Searching, ..self },
                StepView {
                    notices: roster_notices(users),
                    action: ActionView::Search(self.search),
                },
            ),
            Err(e) => self.fail(PassErrorView::Users(e)),
        }
    }

    /// The directory was searched. The plan for its records is made, and the
    /// first invitation is begun; a search that failed gives up the pass.
    pub open spec fn searched(
        self,
        result: Result<Seq<Map<Seq<char>, Seq<Seq<char>>>>, Seq<char>>,
        now: u64,
    ) -> (SupervisorView, StepView) {
        match result {
            Ok(records) => {
                let plan = plan_of(self.existing, candidates_of(records, self.mail_field));
                (SupervisorView {
                    queue: plan.invites,
                    next: 0,
                    outcome: OutcomeView {
                        invited: 0,
                        failed: 0,
                        already_existing: plan.already_existing,
                    },
                    ..self
                }).advance(record_notices(plan.verdicts), now)
            },
            Err(cause) => self.fail(PassErrorView::DirectoryError(cause)),
        }
    }

    /// An exchange of an invitation has ended. The client says how the call
    /// goes on: with another request, or not at all. An invitation that is
    /// over is tallied, as sent or as failed, and the pass goes on either
    /// way.
    pub open spec fn invited(self, outcome: Result<ReplyView, Seq<char>>, now: u64) -> (
        SupervisorView,
        StepView,
    ) {
        let (client, progress) = self.client.receive(outcome);
        let next = SupervisorView { client, ..self };
        match progress {
            ProgressView::Send(request) => (
                next,
                StepView { notices: Seq::empty(), action: ActionView::Send(request) },
            ),
            ProgressView::Done(Ok(_)) => (SupervisorView {
                next: (self.next + 1) as usize,
                outcome: OutcomeView {
                    invited: (self.outcome.invited + 1) as usize,
                    ..self.outcome
                },
                ..next
            }).advance(Seq::empty(), now),
            ProgressView::Done(Err(e)) => (SupervisorView {
                next: (self.next + 1) as usize,
                outcome: OutcomeView {
                    failed: (self.outcome.failed + 1) as usize,
                    ..self.outcome
                },
                ..next
            }).advance(
                seq![NoticeView::InviteFailed { email: self.queue[self.next as int], cause: e }],
                now,
            ),
        }
    }

    /// The machine after `event` at `now`, and its answer. An event that the
    /// stage does not wait for changes nothing.
    pub open spec fn step(self, event: EventView, now: u64) -> (SupervisorView, StepView) {
        match (self.stage, event) {
            (Stage::Resting, EventView::Wake) => self.begin_pass(now),
            (Stage::Listing, EventView::Exchanged(outcome)) => self.listed(outcome),
            (Stage::Reading, EventView::Users(result)) => self.read(result),
            (Stage::Searching, EventView::Entries(result)) => self.searched(result, now),
            (Stage::Inviting, EventView::Exchanged(outcome)) => self.invited(outcome, now),
            _ => self.ignore(),
        }
    }
}

fn notices_of(verdicts: &Vec<Verdict>) -> (r: Vec<Notice>)
    ensures
        views(r@) == record_notices(views(verdicts@)),
{
    let mut r: Vec<Notice> = Vec::new();
    let mut i: usize = 0;
    assert(views(r@) =~= record_notices(views(verdicts@.take(0))));
    while i < verdicts.len()
        invariant
            i <= verdicts.len(),
            views(r@) == record_notices(views(verdicts@.take(i as int))),
        decreases verdicts.len() - i,
    {
        let notice = Notice::Record(verdicts[i].clone());
        proof {
            lemma_views_push(r@, notice);
            lemma_views_take_next(verdicts@, i as int);
            assert(record_notices(views(verdicts@.take(i as int)).push(verdicts@[i as int]@))
                =~= record_notices(views(verdicts@.take(i as int))).push(notice@));
        }
        r.push(notice);
        i = i + 1;
    }
    assert(verdicts@.take(verdicts.len() as int) =~= verdicts@);
    r
}

impl Supervisor {
    /// What the machine waits for.
    pub fn stage(&self) -> (r: Stage)
        ensures
            r == self@.stage,
    {
        self.stage
    }

    /// How many passes in a row have failed.
    pub fn failures(&self) -> (r: u64)
        ensures
            r == self@.failures,
    {
        self.budget.count()
    }

    /// The tally of the pass under way, or of the last one.
    pub fn outcome(&self) -> (r: &Outcome)
        ensures
            r@ == self@.outcome,
    {
        &self.outcome
    }

    fn ignore(&self) -> (r: Step)
        ensures
            r@ == self@.ignore().1,
    {
        let r = Step { notices: Vec::new(), action: Action::Wait };
        assert(r@.notices =~= Seq::<NoticeView>::empty());
        r
    }

    fn begin_pass(&mut self, now: u64) -> (r: Step)
        ensures
            (final(self)@, r@) == old(self)@.begin_pass(now),
            final(self)@.wf(),
    {
        let request = self.client.users(now);
        self.stage = Stage::Listing;
        self.existing = EmailSet::new();
        self.queue = Vec::new();
        self.next = 0;
        self.outcome = Outcome::new();
        let r = Step { notices: Vec::new(), action: Action::Send(request) };
        assert(r@.notices =~= Seq::<NoticeView>::empty());
        assert(views(self.queue@) =~= Seq::<Seq<char>>::empty());
        r
    }

    fn fail(&mut self, error: PassError) -> (r: Step)
        requires
            old(self)@.tallied(),
        ensures
            (final(self)@, r@) == old(self)@.fail(error@),
            final(self)@.wf(),
    {
        let mut notices: Vec<Notice> = Vec::new();
        let notice = Notice::PassFailed { count: self.budget.count(), error: error.clone() };
        proof {
            lemma_views_push(notices@, notice);
            assert(views(notices@) =~= Seq::<NoticeView>::empty());
        }
        notices.push(notice);
        assert(views(notices@) =~= seq![
            NoticeView::PassFailed { count: old(self)@.failures, error: error@ },
        ]);
        if !self.looping {
            self.stage = Stage::Stopped;
            Step { notices, action: Action::Stop(Err(error)) }
        } else if self.budget.record_failure() {
            self.stage = Stage::Stopped;
            Step { notices, action: Action::Stop(Err(error)) }
        } else {
            self.stage = Stage::Resting;
            Step { notices, action: Action::Sleep(self.interval) }
        }
    }

    fn finish(&mut self, notices: Vec<Notice>) -> (r: Step)
        requires
            old(self)@.tallied(),
        ensures
            (final(self)@, r@) == old(self)@.finish(views(notices@)),
            final(self)@.wf(),
    {
        let mut notices = notices;
        let notice = Notice::Sent(self.outcome.invited);
        proof {
            lemma_views_push(notices@, notice);
        }
        notices.push(notice);
        if self.looping {
            self.budget.record_success();
            self.stage = Stage::Resting;
            Step { notices, action: Action::Sleep(self.interval) }
        } else {
            self.stage = Stage::Stopped;
            Step { notices, action: Action::Stop(Ok(())) }
        }
    }

    fn advance(&mut self, notices: Vec<Notice>, now: u64) -> (r: Step)
        requires
            old(self)@.tallied(),
        ensures
            (final(self)@, r@) == old(self)@.advance(views(notices@), now),
            final(self)@.wf(),
    {
        if self.next < self.queue.len() {
            let request = self.client.invite(self.queue[self.next].as_str(), now);
            self.stage = Stage::Inviting;
            Step { notices, action: Action::Send(request) }
        } else {
            self.finish(notices)
        }
    }

    fn listed(&mut self, outcome: Exchange) -> (r: Step)
        requires
            old(self)@.wf(),
            old(self)@.stage is Listing,
        ensures
            (final(self)@, r@) == old(self)@.listed(exchange_view(outcome)),
            final(self)@.wf(),
    {
        match self.client.receive(outcome) {
            Progress::Send(request) => {
                let r = Step { notices: Vec::new(), action: Action::Send(request) };
                assert(r@.notices =~= Seq::<NoticeView>::empty());
                r
            },
            Progress::Done(Ok(_)) => {
                self.stage = Stage::Reading;
                let r = Step { notices: Vec::new(), action: Action::ReadUsers };
                assert(r@.notices =~= Seq::<NoticeView>::empty());
                r
            },
            Progress::Done(Err(e)) => self.fail(PassError::Users(e)),
        }
    }

    fn read(&mut self, result: Result<Vec<User>, String>) -> (r: Step)
        requires
            old(self)@.wf(),
        ensures
            (final(self)@, r@) == old(self)@.read(
                match result {
                    Ok(users) => Ok(views(users@)),
                    Err(cause) => Err(cause@),
                },
            ),
            final(self)@.wf(),
    {
        match Client::read_users(result) {
            Ok(users) => {
                let (existing, notices) = get_existing_users(&users);
                self.existing = existing;
                self.stage = Stage::Searching;
                Step { notices, action: Action::Search(self.search.clone()) }
            },
            Err(e) => self.fail(PassError::Users(e)),
        }
    }

    fn searched(&mut self, result: Result<Vec<DirectoryRecord>, String>, now: u64) -> (r: Step)
        requires
            old(self)@.wf(),
        ensures
            (final(self)@, r@) == old(self)@.searched(
                match result {
                    Ok(entries) => Ok(views(entries@)),
                    Err(cause) => Err(cause@),
                },
                now,
            ),
            final(self)@.wf(),
    {
        match result {
            Ok(entries) => {
                let plan = invite_from_ldap(&self.existing, &entries, self.mail_field.as_str());
                let notices = notices_of(&plan.verdicts);
                self.queue = plan.invites;
                self.next = 0;
                self.outcome = Outcome {
                    invited: 0,
                    failed: 0,
                    already_existing: plan.already_existing,
                };
                assert(views(self.queue@).len() == self.queue.len());
                self.advance(notices, now)
            },
            Err(cause) => self.fail(PassError::DirectoryError(cause)),
        }
    }

    fn invited(&mut self, outcome: Exchange, now: u64) -> (r: Step)
        requires
            old(self)@.wf(),
            old(self)@.stage is Inviting,
        ensures
            (final(self)@, r@) == old(self)@.invited(exchange_view(outcome), now),
            final(self)@.wf(),
    {
        assert(views(self.queue@).len() == self.queue@.len());
        assert(self.next < self.queue.len());
        assert(self.outcome.invited + self.outcome.failed == self.next);
        match self.client.receive(outcome) {
            Progress::Send(request) => {
                let r = Step { notices: Vec::new(), action: Action::Send(request) };
                assert(r@.notices =~= Seq::<NoticeView>::empty());
                r
            },
            Progress::Done(Ok(_)) => {
                self.outcome.invited = self.outcome.invited + 1;
                self.next = self.next + 1;
                let notices: Vec<Notice> = Vec::new();
                assert(views(notices@) =~= Seq::<NoticeView>::empty());
                self.advance(notices, now)
            },
            Progress::Done(Err(e)) => {
                let email = self.queue[self.next].clone();
                self.outcome.failed = self.outcome.failed + 1;
                self.next = self.next + 1;
                let mut notices: Vec<Notice> = Vec::new();
                let notice = Notice::InviteFailed(PerUserInviteError { email, cause: e });
                proof {
                    lemma_views_push(notices@, notice);
                    assert(views(notices@) =~= Seq::<NoticeView>::empty());
                }
                notices.push(notice);
                assert(views(notices@) =~= seq![notice@]);
                self.advance(notices, now)
            },
        }
    }

    /// Takes `event`, which happened at `now`, a reading of a steady clock
    /// in nanoseconds, and answers with what to do next.
    pub fn step(&mut self, event: Event, now: u64) -> (r: Step)
        requires
            old(self)@.wf(),
        ensures
            (final(self)@, r@) == old(self)@.step(event@, now),
            final(self)@.wf(),
    {
        match event {
            Event::Wake => match self.stage {
                Stage::Resting => self.begin_pass(now),
                _ => self.ignore(),
            },
            Event::Exchanged(outcome) => match self.stage {
                Stage::Listing => self.listed(outcome),
                Stage::Inviting => self.invited(outcome, now),
                _ => self.ignore(),
            },
            Event::Users(result) => match self.stage {
                Stage::Reading => self.read(result),
                _ => self.ignore(),
            },
            Event::Entries(result) => match self.stage {
                Stage::Searching => self.searched(result, now),
                _ => self.ignore(),
            },
        }
    }
}

/// The machine before its first pass.
pub open spec fn initial(
    config: Config,
    client: ClientView,
    bind_password: Option<Seq<char>>,
    looping: bool,
) -> SupervisorView {
    SupervisorView {
        client,
        search: search_of(config, bind_password),
        mail_field: config.mail_field(),
        interval: match config.ldap_sync_interval_seconds {
            Some(seconds) => seconds,
            None => crate::config::SYNC_INTERVAL_SECONDS,
        },
        looping,
        failures: 0,
        stage: Stage::Resting,
        existing: Set::empty(),
        queue: Seq::empty(),
        next: 0,
        outcome: OutcomeView::empty(),
    }
}

/// Sets up the invitation of the directory's users, pass after pass where
/// `start_loop` says so and in one pass otherwise. `bind_password` is the
/// password that the directory is bound with, if any.
pub fn invite_users(
    config: &Config,
    client: Client,
    bind_password: Option<String>,
    start_loop: bool,
) -> (r: Supervisor)
    ensures
        r@ == initial(*config, client@, view_of(bind_password), start_loop),
        r@.wf(),
{
    let queue: Vec<String> = Vec::new();
    assert(views(queue@) =~= Seq::<Seq<char>>::empty());
    Supervisor {
        client,
        search: search_entries(config, bind_password),
        mail_field: config.get_ldap_mail_field(),
        interval: config.get_ldap_sync_interval_seconds(),
        looping: start_loop,
        budget: FailureBudget::new(),
        stage: Stage::Resting,
        existing: EmailSet::new(),
        queue,
        next: 0,
        outcome: Outcome::new(),
    }
}

/// Sets up the invitation of the directory's users, pass after pass.
pub fn start_sync_loop(config: &Config, client: Client, bind_password: Option<String>) -> (r:
    Supervisor)
    ensures
        r@ == initial(*config, client@, view_of(bind_password), true),
        r@.wf(),
{
    invite_users(config, client, bind_password, true)
}

/// Whether `request` is an invitation: a POST of a JSON object.
pub open spec fn is_invitation(request: RequestView) -> bool {
    request.method == Method::Post && request.payload is Json
}

/// Whether `step` sends an invitation.
pub open spec fn sends_invitation(step: StepView) -> bool {
    step.action matches ActionView::Send(request) && is_invitation(request)
}

/// Whether `step` ends the run with an error.
pub open spec fn stops_with_error(step: StepView) -> bool {
    match step.action {
        ActionView::Stop(Err(_)) => true,
        _ => false,
    }
}

/// Whether `progress` says that the call has failed.
pub open spec fn call_failed(progress: ProgressView) -> bool {
    match progress {
        ProgressView::Done(Err(_)) => true,
        _ => false,
    }
}

/// Whether `machine` is between two passes or at the end of the run.
pub open spec fn pass_is_over(machine: SupervisorView) -> bool {
    machine.stage is Resting || machine.stage is Stopped
}

/// Whether `event` brings a listing of users that was read.
pub open spec fn brings_users(event: EventView) -> bool {
    match event {
        EventView::Users(Ok(_)) => true,
        _ => false,
    }
}

/// Whether `event` is one that can be reported: the records it brings, if
/// any, are no more than a vector holds.
pub open spec fn reportable(event: EventView) -> bool {
    match event {
        EventView::Entries(Ok(records)) => records.len() <= usize::MAX,
        _ => true,
    }
}

/// Every step keeps what holds of the machine between two steps.
pub proof fn lemma_step_keeps_wf(machine: SupervisorView, event: EventView, now: u64)
    requires
        machine.wf(),
        reportable(event),
    ensures
        machine.step(event, now).0.wf(),
{
    match event {
        EventView::Entries(Ok(records)) => {
            lemma_invitations_len(
                plan_of(machine.existing, candidates_of(records, machine.mail_field)).verdicts,
            );
        },
        _ => {},
    }
}

/// Nobody is invited before the server's users are listed and read. While
/// the machine rests, lists or reads, and once it has stopped, no event
/// makes it send an invitation or wait for the outcome of one; and the
/// directory is searched only once a listing was read, with that listing's
/// addresses as what the server knows.
pub proof fn lemma_no_invitation_before_listing(machine: SupervisorView, event: EventView, now: u64)
    requires
        machine.wf(),
        !(machine.stage is Searching),
        !(machine.stage is Inviting),
    ensures
        !sends_invitation(machine.step(event, now).1),
        !(machine.step(event, now).0.stage is Inviting),
        machine.step(event, now).0.stage is Searching ==> machine.stage is Reading && brings_users(
            event,
        ),
        match event {
            EventView::Users(Ok(users)) => machine.stage is Reading ==> machine.step(
                event,
                now,
            ).0.existing == roster_keys(users),
            _ => true,
        },
{
}

/// The machine after `events`, each with the clock's reading when it
/// happened, in order.
pub open spec fn after(machine: SupervisorView, events: Seq<(EventView, u64)>) -> SupervisorView
    decreases events.len(),
{
    if events.len() == 0 {
        machine
    } else {
        after(machine, events.drop_last()).step(events.last().0, events.last().1).0
    }
}

/// The machine's answer to the last of `events`.
pub open spec fn answer(machine: SupervisorView, events: Seq<(EventView, u64)>) -> StepView
    recommends
        events.len() > 0,
{
    after(machine, events.drop_last()).step(events.last().0, events.last().1).1
}

/// Whether each of `events` is one that can be reported.
pub open spec fn all_reportable(events: Seq<(EventView, u64)>) -> bool {
    forall|i: int| 0 <= i < events.len() ==> reportable((#[trigger] events[i]).0)
}

/// Whether the pass under way has read the server's listing.
pub open spec fn has_roster(machine: SupervisorView) -> bool {
    machine.stage is Searching || machine.stage is Inviting
}

/// Whether, `n` events into `events`, the pass under way has had the
/// server's listing ever since the event at `j` brought it.
pub open spec fn listed_since(
    machine: SupervisorView,
    events: Seq<(EventView, u64)>,
    j: int,
    n: int,
) -> bool {
    &&& 0 <= j < n <= events.len()
    &&& after(machine, events.take(j)).stage is Reading
    &&& brings_users(events[j].0)
    &&& forall|l: int| j < l <= n ==> has_roster(#[trigger] after(machine, events.take(l)))
}

/// What holds of the machine between two steps holds after any run of
/// events.
pub proof fn lemma_run_keeps_wf(machine: SupervisorView, events: Seq<(EventView, u64)>)
    requires
        machine.wf(),
        all_reportable(events),
    ensures
        after(machine, events).wf(),
    decreases events.len(),
{
    if events.len() > 0 {
        lemma_run_keeps_wf(machine, events.drop_last());
        assert(reportable(events[events.len() - 1].0));
        lemma_step_keeps_wf(
            after(machine, events.drop_last()),
            events.last().0,
            events.last().1,
        );
    }
}

proof fn lemma_roster_comes_from_listing(machine: SupervisorView, events: Seq<(EventView, u64)>)
    requires
        machine.wf(),
        !has_roster(machine),
        all_reportable(events),
        has_roster(after(machine, events)),
    ensures
        ({
            let n = events.len() as int;
            exists|j: int| listed_since(machine, events, j, n)
        }),
    decreases events.len(),
{
    let n = events.len() as int;
    assert(events.take(n) =~= events);
    if n > 0 {
        let m = n - 1;
        let before = events.drop_last();
        assert(events.take(m) =~= before);
        assert forall|l: int| 0 <= l < n implies #[trigger] before.take(l) == events.take(l) by {
            assert(before.take(l) =~= events.take(l));
        }
        lemma_run_keeps_wf(machine, before);
        if has_roster(after(machine, before)) {
            lemma_roster_comes_from_listing(machine, before);
            let j = choose|j: int| listed_since(machine, before, j, m);
            assert(before.take(j) == events.take(j));
            assert forall|l: int| j < l <= n implies has_roster(
                #[trigger] after(machine, events.take(l)),
            ) by {
                if l < n {
                    assert(before.take(l) == events.take(l));
                    assert(has_roster(after(machine, before.take(l))));
                }
            }
            assert(listed_since(machine, events, j, n));
        } else {
            lemma_no_invitation_before_listing(
                after(machine, before),
                events.last().0,
                events.last().1,
            );
            assert forall|l: int| n - 1 < l <= n implies has_roster(
                #[trigger] after(machine, events.take(l)),
            ) by {
                assert(l == n);
            }
            assert(events.take(m) == before) by {
                assert(events.take(m) =~= before);
            }
            assert(listed_since(machine, events, m, n));
        }
    }
}

/// A listing that fails lets nobody be invited: whenever an invitation is
/// sent, the pass under way has read the server's listing. Some event before
/// brought the listing while the machine waited for it, and the pass has not
/// ended since.
pub proof fn lemma_invitation_follows_listing(
    machine: SupervisorView,
    events: Seq<(EventView, u64)>,
)
    requires
        machine.wf(),
        !has_roster(machine),
        all_reportable(events),
        events.len() > 0,
        sends_invitation(answer(machine, events)),
    ensures
        ({
            let n = events.len() - 1;
            exists|j: int| listed_since(machine, events, j, n)
        }),
{
    let n = events.len() as int;
    let before = events.drop_last();
    lemma_run_keeps_wf(machine, before);
    if !has_roster(after(machine, before)) {
        lemma_no_invitation_before_listing(
            after(machine, before),
            events.last().0,
            events.last().1,
        );
    }
    lemma_roster_comes_from_listing(machine, before);
    let m = n - 1;
    let j = choose|j: int| listed_since(machine, before, j, m);
    assert forall|l: int| 0 <= l < n implies #[trigger] before.take(l) == events.take(l) by {
        assert(before.take(l) =~= events.take(l));
    }
    assert(before.take(j) == events.take(j));
    assert forall|l: int| j < l <= n - 1 implies has_roster(
        #[trigger] after(machine, events.take(l)),
    ) by {
        assert(before.take(l) == events.take(l));
        assert(has_roster(after(machine, before.take(l))));
    }
    assert(listed_since(machine, events, j, m));
}

/// An invitation that is sent is that of the address whose turn it is in
/// the queue, and the machine then waits for its outcome.
pub proof fn lemma_invitation_is_next_in_queue(machine: SupervisorView, event: EventView, now: u64)
    requires
        machine.wf(),
        sends_invitation(machine.step(event, now).1),
    ensures
        ({
            let (next, step) = machine.step(event, now);
            &&& next.stage is Inviting
            &&& next.next < next.queue.len()
            &&& step.action->Send_0.url == machine.client.url + "/admin"@ + "/invite"@
            &&& step.action->Send_0.payload == PayloadView::Json(
                seq![("email"@, next.queue[next.next as int])],
            )
        }),
{
}

/// A listing that fails gives up the pass on the spot: the step that learns
/// of the failure, be it of the login, of the call or of the reading of the
/// reply, sends nothing, and leaves the machine between two passes or at the
/// end of the run.
pub proof fn lemma_failed_listing_gives_up_pass(machine: SupervisorView, event: EventView, now: u64)
    requires
        machine.wf(),
        match event {
            EventView::Exchanged(outcome) => machine.stage is Listing && call_failed(
                machine.client.receive(outcome).1,
            ),
            EventView::Users(result) => machine.stage is Reading && result is Err,
            _ => false,
        },
    ensures
        ({
            let (next, step) = machine.step(event, now);
            &&& pass_is_over(next)
            &&& step.action is Sleep || stops_with_error(step)
            &&& next.queue == machine.queue
            &&& next.outcome == machine.outcome
        }),
{
}

/// Whatever records the directory gives, with mail addresses or without,
/// the pass is not given up over them: the plan for them is made, and the
/// pass goes on with the first invitation of the plan or, where nobody is to
/// be invited, to its end, which is no error.
pub proof fn lemma_records_never_fail_pass(
    machine: SupervisorView,
    records: Seq<Map<Seq<char>, Seq<Seq<char>>>>,
    now: u64,
)
    requires
        machine.wf(),
        machine.stage is Searching,
    ensures
        ({
            let plan = plan_of(machine.existing, candidates_of(records, machine.mail_field));
            let (next, step) = machine.step(EventView::Entries(Ok(records)), now);
            &&& next.queue == plan.invites
            &&& next.outcome.already_existing == plan.already_existing
            &&& !stops_with_error(step)
            &&& plan.invites.len() > 0 ==> next.stage is Inviting && next.next == 0
            &&& plan.invites.len() == 0 ==> pass_is_over(next) && next.outcome.invited == 0
                && next.outcome.failed == 0
        }),
{
}

/// The failure of an invitation does not end the pass. However an
/// invitation ends, it is tallied, as sent or as failed, and the pass goes
/// on: with the next address of the queue, or, after the last, to its end,
/// which is never an error. At that end every address of the queue is
/// tallied.
pub proof fn lemma_invite_failure_is_contained(
    machine: SupervisorView,
    outcome: Result<ReplyView, Seq<char>>,
    now: u64,
)
    requires
        machine.wf(),
        machine.stage is Inviting,
        machine.client.receive(outcome).1 is Done,
    ensures
        ({
            let result = machine.client.receive(outcome).1->Done_0;
            let (next, step) = machine.step(EventView::Exchanged(outcome), now);
            &&& next.wf()
            &&& next.queue == machine.queue
            &&& next.next == machine.next + 1
            &&& result is Ok ==> next.outcome.invited == machine.outcome.invited + 1
                && next.outcome.failed == machine.outcome.failed
            &&& result is Err ==> next.outcome.invited == machine.outcome.invited
                && next.outcome.failed == machine.outcome.failed + 1
            &&& !stops_with_error(step)
            &&& machine.next + 1 < machine.queue.len() ==> next.stage is Inviting && step.action
                == ActionView::Send(
                machine.client.receive(outcome).0.begin(
                    machine.invite_call(machine.queue[machine.next + 1]),
                    now,
                ).1,
            )
            &&& machine.next + 1 == machine.queue.len() ==> pass_is_over(next)
                && next.outcome.invited + next.outcome.failed == machine.queue.len()
                && (machine.looping ==> next.failures == 0)
        }),
{
}

/// Whether `step` says that a pass went through.
pub open spec fn reports_pass_through(step: StepView) -> bool {
    step.notices.len() > 0 && step.notices.last() is Sent
}

/// A pass that goes through has seen to every address of its queue: when a
/// step says that the pass went through, each address was tallied, as sent
/// or as failed, and the number it gives is that of those sent.
pub proof fn lemma_pass_through_tallies_queue(machine: SupervisorView, event: EventView, now: u64)
    requires
        machine.wf(),
        reportable(event),
        reports_pass_through(machine.step(event, now).1),
    ensures
        ({
            let (next, step) = machine.step(event, now);
            &&& pass_is_over(next)
            &&& !stops_with_error(step)
            &&& next.outcome.invited + next.outcome.failed == next.queue.len()
            &&& step.notices.last() == NoticeView::Sent(next.outcome.invited)
            &&& machine.looping ==> next.failures == 0
        }),
{
    match event {
        EventView::Entries(Ok(records)) => {
            lemma_invitations_len(
                plan_of(machine.existing, candidates_of(records, machine.mail_field)).verdicts,
            );
        },
        _ => {},
    }
}

/// An invitation is sent once. When the invitation itself is under way, and
/// not the login before it, its outcome ends it, and what is invited next,
/// if anything, is the next address of the queue.
pub proof fn lemma_invitation_is_sent_once(
    machine: SupervisorView,
    outcome: Result<ReplyView, Seq<char>>,
    now: u64,
)
    requires
        machine.wf(),
        machine.stage is Inviting,
        machine.client.queued is None,
    ensures
        machine.step(EventView::Exchanged(outcome), now).0.next == machine.next + 1,
        machine.step(EventView::Exchanged(outcome), now).0.queue == machine.queue,
{
}

/// After `n` failures in a row, counted from none, the count is `n` up to
/// one beyond the limit, where it stands still.
pub proof fn lemma_failures_in_a_row(n: nat)
    ensures
        failures_after_many(0, n) == if n <= FAIL_LIMIT {
            n as int
        } else {
            FAIL_LIMIT + 1
        },
    decreases n,
{
    if n > 0 {
        lemma_failures_in_a_row((n - 1) as nat);
    }
}

/// In a loop, the run outlives as many failed passes in a row as the limit
/// says, and not one more: when a pass is given up after `n` passes before
/// it have failed in a row, the run ends just when `n` has reached the
/// limit. A pass that goes through makes the count start again.
pub proof fn lemma_run_ends_beyond_limit(machine: SupervisorView, error: PassErrorView, n: nat)
    requires
        machine.looping,
        n <= FAIL_LIMIT,
        machine.failures == failures_after_many(0, n),
    ensures
        ({
            let (next, step) = machine.fail(error);
            &&& next.failures == failures_after_many(0, n + 1)
            &&& n < FAIL_LIMIT ==> step.action == ActionView::Sleep(machine.interval)
                && next.stage is Resting
            &&& n == FAIL_LIMIT ==> step.action == ActionView::Stop(Err(error))
                && next.stage is Stopped
        }),
        forall|notices: Seq<NoticeView>| (#[trigger] machine.finish(notices)).0.failures == 0,
{
    lemma_failures_in_a_row(n);
    lemma_failures_in_a_row(n + 1);
}

/// Whether the count of failures fits the stage of a machine that runs in a
/// loop: it has stopped just when more passes in a row have failed than the
/// limit allows.
pub open spec fn budget_fits(machine: SupervisorView) -> bool {
    machine.looping ==> (machine.stage is Stopped <==> machine.failures > FAIL_LIMIT)
}

/// In a loop, nothing but failed passes ends the run. From the first event
/// on, whatever the events, the machine has stopped just when more passes in
/// a row have failed than the limit allows.
pub proof fn lemma_loop_ends_only_beyond_limit(
    config: Config,
    client: ClientView,
    bind_password: Option<Seq<char>>,
    events: Seq<(EventView, u64)>,
)
    ensures
        budget_fits(after(initial(config, client, bind_password, true), events)),
        after(initial(config, client, bind_password, true), events).looping,
    decreases events.len(),
{
    if events.len() > 0 {
        lemma_loop_ends_only_beyond_limit(config, client, bind_password, events.drop_last());
    }
}

/// Outside a loop nothing is forgiven: the first pass that is given up ends
/// the run with its error.
pub proof fn lemma_single_pass_failure_is_fatal(machine: SupervisorView, error: PassErrorView)
    requires
        !machine.looping,
    ensures
        machine.fail(error).1.action == ActionView::Stop(Err(error)),
        machine.fail(error).0.stage is Stopped,
{
}

} // verus!
