//! What a pass reports: a verdict on every directory record, a notice of
//! everything worth a line in a log, the error that ended it, and its tally.

use crate::model::view_of;
use crate::vw_admin::{ResponseError, ResponseErrorView};
use vstd::hash_set::StringHashSet;
use vstd::prelude::*;

verus! {

/// A set of mail addresses in their lowercase form.
pub struct EmailSet {
    keys: StringHashSet,
}

impl View for EmailSet {
    type V = Set<Seq<char>>;

    closed spec fn view(&self) -> Set<Seq<char>> {
        self.keys@
    }
}

impl EmailSet {
    /// The empty set.
    pub fn new() -> (r: EmailSet)
        ensures
            r@ == Set::<Seq<char>>::empty(),
    {
        EmailSet { keys: StringHashSet::new() }
    }

    /// Adds `key`, which is taken as it is.
    pub fn insert(&mut self, key: String)
        ensures
            final(self)@ == old(self)@.insert(key@),
    {
        self.keys.insert(key);
    }

    /// Whether `key`, taken as it is, is in the set.
    pub fn contains(&self, key: &str) -> (r: bool)
        ensures
            r == self@.contains(key@),
    {
        self.keys.contains(key)
    }

    /// The number of addresses in the set.
    pub fn len(&self) -> (r: usize)
        ensures
            r == self@.len(),
    {
        self.keys.len()
    }
}

/// What a pass decides about one directory record.
#[derive(Debug, PartialEq, Eq)]
pub enum Verdict {
    /// The record has no mail address; its `uid`, where it has one.
    MissingMail(Option<String>),
    /// The server knows the record's address already.
    AlreadyExists(String),
    /// An earlier record of this pass had the same address.
    Duplicate(String),
    /// The address is to be invited.
    Invite(String),
}

/// The model of a [`Verdict`].
pub enum VerdictView {
    MissingMail(Option<Seq<char>>),
    AlreadyExists(Seq<char>),
    Duplicate(Seq<char>),
    Invite(Seq<char>),
}

impl View for Verdict {
    type V = VerdictView;

    open spec fn view(&self) -> VerdictView {
        match self {
            Verdict::MissingMail(uid) => VerdictView::MissingMail(view_of(*uid)),
            Verdict::AlreadyExists(email) => VerdictView::AlreadyExists(email@),
            Verdict::Duplicate(email) => VerdictView::Duplicate(email@),
            Verdict::Invite(email) => VerdictView::Invite(email@),
        }
    }
}

impl Clone for Verdict {
    fn clone(&self) -> (r: Verdict)
        ensures
            r@ == self@,
    {
        match self {
            Verdict::MissingMail(uid) => Verdict::MissingMail(
                match uid {
                    Some(uid) => Some(uid.clone()),
                    None => None,
                },
            ),
            Verdict::AlreadyExists(email) => Verdict::AlreadyExists(email.clone()),
            Verdict::Duplicate(email) => Verdict::Duplicate(email.clone()),
            Verdict::Invite(email) => Verdict::Invite(email.clone()),
        }
    }
}

/// The failure of one invitation. It costs the pass nothing but this one
/// user.
#[derive(Debug, PartialEq, Eq)]
pub struct PerUserInviteError {
    pub email: String,
    pub cause: ResponseError,
}

/// Why a pass was given up.
#[derive(Debug, PartialEq, Eq)]
pub enum PassError {
    /// The server's users could not be listed.
    Users(ResponseError),
    /// The directory could not be searched: the connection, the bind or the
    /// search failed.
    DirectoryError(String),
}

/// The model of a [`PassError`].
pub enum PassErrorView {
    Users(ResponseErrorView),
    DirectoryError(Seq<char>),
}

impl View for PassError {
    type V = PassErrorView;

    open spec fn view(&self) -> PassErrorView {
        match self {
            PassError::Users(e) => PassErrorView::Users(e@),
            PassError::DirectoryError(cause) => PassErrorView::DirectoryError(cause@),
        }
    }
}

impl Clone for PassError {
    fn clone(&self) -> (r: PassError)
        ensures
            r@ == self@,
    {
        match self {
            PassError::Users(e) => PassError::Users(e.clone()),
            PassError::DirectoryError(cause) => PassError::DirectoryError(cause.clone()),
        }
    }
}

/// Something that happened in a pass and is worth a line in a log.
#[derive(Debug, PartialEq, Eq)]
pub enum Notice {
    /// The server lists a user with this address; whether the account is
    /// disabled.
    ExistingUser { email: String, disabled: bool },
    /// What was decided about a directory record.
    Record(Verdict),
    /// An invitation failed.
    InviteFailed(PerUserInviteError),
    /// The pass is over; the number of invitations that went through.
    Sent(usize),
    /// The pass was given up; the number of passes that had failed in a row
    /// before it.
    PassFailed { count: u64, error: PassError },
}

/// The model of a [`Notice`].
pub enum NoticeView {
    ExistingUser { email: Seq<char>, disabled: bool },
    Record(VerdictView),
    InviteFailed { email: Seq<char>, cause: ResponseErrorView },
    Sent(usize),
    PassFailed { count: u64, error: PassErrorView },
}

impl View for Notice {
    type V = NoticeView;

    open spec fn view(&self) -> NoticeView {
        match self {
            Notice::ExistingUser { email, disabled } => NoticeView::ExistingUser {
                email: email@,
                disabled: *disabled,
            },
            Notice::Record(verdict) => NoticeView::Record(verdict@),
            Notice::InviteFailed(failure) => NoticeView::InviteFailed {
                email: failure.email@,
                cause: failure.cause@,
            },
            Notice::Sent(count) => NoticeView::Sent(*count),
            Notice::PassFailed { count, error } => NoticeView::PassFailed {
                count: *count,
                error: error@,
            },
        }
    }
}

/// The tally of a pass.
pub struct Outcome {
    /// Invitations that went through.
    pub invited: usize,
    /// Invitations that failed.
    pub failed: usize,
    /// The addresses of the directory, in lowercase, that the server knew
    /// already.
    pub already_existing: EmailSet,
}

/// The model of an [`Outcome`].
pub struct OutcomeView {
    pub invited: usize,
    pub failed: usize,
    pub already_existing: Set<Seq<char>>,
}

impl View for Outcome {
    type V = OutcomeView;

    open spec fn view(&self) -> OutcomeView {
        OutcomeView {
            invited: self.invited,
            failed: self.failed,
            already_existing: self.already_existing@,
        }
    }
}

impl OutcomeView {
    /// The tally of a pass in which nothing has happened yet.
    pub open spec fn empty() -> OutcomeView {
        OutcomeView { invited: 0, failed: 0, already_existing: Set::empty() }
    }
}

impl Outcome {
    /// The tally of a pass in which nothing has happened yet.
    pub fn new() -> (r: Outcome)
        ensures
            r@ == OutcomeView::empty(),
    {
        Outcome { invited: 0, failed: 0, already_existing: EmailSet::new() }
    }
}

} // verus!
