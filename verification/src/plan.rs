//! The heart of a pass: which directory users to invite.
//!
//! A record's mail address is compared in lowercase with the addresses that
//! the server knows and with those of the records before it, so that no
//! address is invited that the server has, and none twice in one pass.

use crate::directory::{first_value, DirectoryRecord};
use crate::model::{lemma_views_push, view_of, views};
use crate::report::{EmailSet, Verdict, VerdictView};
use crate::text::{lowercase, to_lowercase};
use vstd::prelude::*;

verus! {

/// A mail address as the directory has it, and the key it is compared by.
#[derive(Debug, PartialEq, Eq)]
pub struct Address {
    pub email: String,
    pub key: String,
}

/// What a pass looks at in a directory record.
#[derive(Debug, PartialEq, Eq)]
pub struct Candidate {
    /// The record's `uid`, if it has one.
    pub uid: Option<String>,
    /// The record's mail address, if it has one.
    pub mail: Option<Address>,
}

/// The model of a [`Candidate`].
pub struct CandidateView {
    pub uid: Option<Seq<char>>,
    /// The address and its key.
    pub mail: Option<(Seq<char>, Seq<char>)>,
}

impl View for Candidate {
    type V = CandidateView;

    open spec fn view(&self) -> CandidateView {
        CandidateView {
            uid: view_of(self.uid),
            mail: match self.mail {
                Some(address) => Some((address.email@, address.key@)),
                None => None,
            },
        }
    }
}

/// What a pass looks at in `record`, where `mail_field` names the attribute
/// that holds the mail address: the first value of `uid`, and the first value
/// of the mail attribute with its lowercase form as the key.
pub open spec fn candidate_of(
    record: Map<Seq<char>, Seq<Seq<char>>>,
    mail_field: Seq<char>,
) -> CandidateView {
    CandidateView {
        uid: first_value(record, "uid"@),
        mail: match first_value(record, mail_field) {
            Some(email) => Some((email, lowercase(email))),
            None => None,
        },
    }
}

/// The candidates of `records`, in order.
pub open spec fn candidates_of(
    records: Seq<Map<Seq<char>, Seq<Seq<char>>>>,
    mail_field: Seq<char>,
) -> Seq<CandidateView> {
    records.map_values(|record: Map<Seq<char>, Seq<Seq<char>>>| candidate_of(record, mail_field))
}

/// Whether `candidate` has a mail address with the key `key`.
pub open spec fn has_key(candidate: CandidateView, key: Seq<char>) -> bool {
    candidate.mail is Some && candidate.mail.unwrap().1 == key
}

/// Whether one of the first `n` candidates has a mail address with the key
/// `key`.
pub open spec fn seen_before(candidates: Seq<CandidateView>, n: int, key: Seq<char>) -> bool {
    exists|j: int| 0 <= j < n && j < candidates.len() && #[trigger] has_key(candidates[j], key)
}

/// The verdict on the candidate at `i`, where `existing` holds the keys that
/// the server knows.
pub open spec fn verdict(
    existing: Set<Seq<char>>,
    candidates: Seq<CandidateView>,
    i: int,
) -> VerdictView {
    match candidates[i].mail {
        None => VerdictView::MissingMail(candidates[i].uid),
        Some((email, key)) => if existing.contains(key) {
            VerdictView::AlreadyExists(email)
        } else if seen_before(candidates, i, key) {
            VerdictView::Duplicate(email)
        } else {
            VerdictView::Invite(email)
        },
    }
}

/// The verdicts on all candidates, in order.
pub open spec fn verdicts(existing: Set<Seq<char>>, candidates: Seq<CandidateView>) -> Seq<
    VerdictView,
> {
    Seq::new(candidates.len(), |i: int| verdict(existing, candidates, i))
}

/// The addresses that `verdicts` say to invite, in order.
pub open spec fn invitations(verdicts: Seq<VerdictView>) -> Seq<Seq<char>>
    decreases verdicts.len(),
{
    if verdicts.len() == 0 {
        Seq::empty()
    } else {
        let before = invitations(verdicts.drop_last());
        match verdicts.last() {
            VerdictView::Invite(email) => before.push(email),
            _ => before,
        }
    }
}

/// The keys in `existing` that a candidate has.
pub open spec fn matched(existing: Set<Seq<char>>, candidates: Seq<CandidateView>) -> Set<
    Seq<char>,
> {
    Set::new(
        |key: Seq<char>|
            existing.contains(key) && seen_before(candidates, candidates.len() as int, key),
    )
}

/// What a pass is to do.
pub struct Plan {
    /// The verdict on each candidate, in the candidates' order.
    pub verdicts: Vec<Verdict>,
    /// The addresses to invite, in the candidates' order.
    pub invites: Vec<String>,
    /// The keys of the candidates that the server knows already.
    pub already_existing: EmailSet,
}

/// The model of a [`Plan`].
pub struct PlanView {
    pub verdicts: Seq<VerdictView>,
    pub invites: Seq<Seq<char>>,
    pub already_existing: Set<Seq<char>>,
}

impl View for Plan {
    type V = PlanView;

    open spec fn view(&self) -> PlanView {
        PlanView {
            verdicts: views(self.verdicts@),
            invites: views(self.invites@),
            already_existing: self.already_existing@,
        }
    }
}

/// What a pass is to do with `candidates`, where `existing` holds the keys
/// that the server knows.
pub open spec fn plan_of(existing: Set<Seq<char>>, candidates: Seq<CandidateView>) -> PlanView {
    PlanView {
        verdicts: verdicts(existing, candidates),
        invites: invitations(verdicts(existing, candidates)),
        already_existing: matched(existing, candidates),
    }
}

proof fn lemma_plan_next(existing: Set<Seq<char>>, candidates: Seq<CandidateView>, n: int)
    requires
        0 <= n < candidates.len(),
    ensures
        verdicts(existing, candidates).take(n + 1) == verdicts(existing, candidates).take(n).push(
            verdict(existing, candidates, n),
        ),
        invitations(verdicts(existing, candidates).take(n + 1)) == match verdict(
            existing,
            candidates,
            n,
        ) {
            VerdictView::Invite(email) => invitations(verdicts(existing, candidates).take(n)).push(
                email,
            ),
            _ => invitations(verdicts(existing, candidates).take(n)),
        },
{
    let all = verdicts(existing, candidates);
    assert(all.take(n + 1) =~= all.take(n).push(verdict(existing, candidates, n)));
    assert(all.take(n + 1).drop_last() =~= all.take(n));
}

fn clone_text(text: &Option<String>) -> (r: Option<String>)
    ensures
        view_of(r) == view_of(*text),
{
    match text {
        Some(text) => Some(text.clone()),
        None => None,
    }
}

/// Decides what to do with `candidates`, whose keys are taken as they are,
/// where `existing` holds the keys that the server knows.
pub fn decide(existing: &EmailSet, candidates: &Vec<Candidate>) -> (r: Plan)
    ensures
        r@ == plan_of(existing@, views(candidates@)),
{
    let ghost all = views(candidates@);
    let mut verdicts: Vec<Verdict> = Vec::new();
    let mut invites: Vec<String> = Vec::new();
    let mut already_existing = EmailSet::new();
    let mut seen = EmailSet::new();
    let mut i: usize = 0;
    proof {
        assert(views(verdicts@) =~= self::verdicts(existing@, all).take(0));
        assert(views(invites@) =~= invitations(self::verdicts(existing@, all).take(0)));
    }
    while i < candidates.len()
        invariant
            i <= candidates.len(),
            all == views(candidates@),
            views(verdicts@) == self::verdicts(existing@, all).take(i as int),
            views(invites@) == invitations(self::verdicts(existing@, all).take(i as int)),
            forall|key: Seq<char>|
                already_existing@.contains(key) <==> existing@.contains(key) && seen_before(
                    all,
                    i as int,
                    key,
                ),
            forall|key: Seq<char>| seen@.contains(key) <==> seen_before(all, i as int, key),
        decreases candidates.len() - i,
    {
        let candidate = &candidates[i];
        assert(all[i as int] == candidate@);
        proof {
            lemma_plan_next(existing@, all, i as int);
        }
        let verdict = match &candidate.mail {
            None => Verdict::MissingMail(clone_text(&candidate.uid)),
            Some(address) => {
                let verdict = if existing.contains(address.key.as_str()) {
                    already_existing.insert(address.key.clone());
                    Verdict::AlreadyExists(address.email.clone())
                } else if seen.contains(address.key.as_str()) {
                    Verdict::Duplicate(address.email.clone())
                } else {
                    proof {
                        lemma_views_push(invites@, address.email);
                    }
                    invites.push(address.email.clone());
                    Verdict::Invite(address.email.clone())
                };
                seen.insert(address.key.clone());
                verdict
            },
        };
        assert(verdict@ == self::verdict(existing@, all, i as int));
        proof {
            lemma_views_push(verdicts@, verdict);
            assert forall|key: Seq<char>| seen_before(all, i + 1, key) <==> seen_before(
                all,
                i as int,
                key,
            ) || has_key(all[i as int], key) by {
                if seen_before(all, i + 1, key) {
                    let j = choose|j: int|
                        0 <= j < i + 1 && j < all.len() && #[trigger] has_key(all[j], key);
                    if j < i {
                        assert(has_key(all[j], key));
                    }
                }
                if has_key(all[i as int], key) {
                    assert(seen_before(all, i + 1, key));
                }
                if seen_before(all, i as int, key) {
                    let j = choose|j: int|
                        0 <= j < i && j < all.len() && #[trigger] has_key(all[j], key);
                    assert(has_key(all[j], key));
                }
            }
        }
        verdicts.push(verdict);
        i = i + 1;
    }
    proof {
        let all_verdicts = self::verdicts(existing@, all);
        assert(all_verdicts.take(candidates.len() as int) =~= all_verdicts);
        assert(already_existing@ =~= matched(existing@, all));
    }
    Plan { verdicts, invites, already_existing }
}

/// Reads from each of `entries` what a pass looks at, where `mail_field`
/// names the attribute that holds the mail address.
pub fn candidates(entries: &Vec<DirectoryRecord>, mail_field: &str) -> (r: Vec<Candidate>)
    ensures
        views(r@) == candidates_of(views(entries@), mail_field@),
{
    let ghost records = views(entries@);
    let mut r: Vec<Candidate> = Vec::new();
    let mut i: usize = 0;
    while i < entries.len()
        invariant
            i <= entries.len(),
            records == views(entries@),
            views(r@) =~= candidates_of(records, mail_field@).take(i as int),
        decreases entries.len() - i,
    {
        let entry = &entries[i];
        assert(records[i as int] == entry@);
        let uid = match entry.first("uid") {
            Some(uid) => Some(uid.clone()),
            None => None,
        };
        let mail = match entry.first(mail_field) {
            Some(email) => Some(
                Address { email: email.clone(), key: to_lowercase(email.as_str()) },
            ),
            None => None,
        };
        let candidate = Candidate { uid, mail };
        proof {
            lemma_views_push(r@, candidate);
            assert(candidate@ == candidate_of(records[i as int], mail_field@));
            assert(candidates_of(records, mail_field@).take(i + 1) =~= candidates_of(
                records,
                mail_field@,
            ).take(i as int).push(candidate@));
        }
        r.push(candidate);
        i = i + 1;
    }
    proof {
        assert(candidates_of(records, mail_field@).take(entries.len() as int) =~= candidates_of(
            records,
            mail_field@,
        ));
    }
    r
}

/// Decides which of the directory's `entries` to invite, where `existing`
/// holds the addresses that the server knows, in lowercase, and `mail_field`
/// names the attribute that holds a record's mail address.
pub fn invite_from_ldap(
    existing: &EmailSet,
    entries: &Vec<DirectoryRecord>,
    mail_field: &str,
) -> (r: Plan)
    ensures
        r@ == plan_of(existing@, candidates_of(views(entries@), mail_field@)),
{
    let candidates = candidates(entries, mail_field);
    decide(existing, &candidates)
}

/// An address is among the invitations just when a verdict says to invite
/// it.
pub proof fn lemma_invitations(verdicts: Seq<VerdictView>, email: Seq<char>)
    ensures
        invitations(verdicts).contains(email) <==> exists|i: int|
            0 <= i < verdicts.len() && #[trigger] verdicts[i] == VerdictView::Invite(email),
    decreases verdicts.len(),
{
    if verdicts.len() > 0 {
        let rest = verdicts.drop_last();
        let before = invitations(rest);
        lemma_invitations(rest, email);
        if invitations(verdicts).contains(email) {
            let k = choose|k: int|
                0 <= k < invitations(verdicts).len() && invitations(verdicts)[k] == email;
            if verdicts.last() == VerdictView::Invite(email) {
                assert(verdicts[verdicts.len() - 1] == VerdictView::Invite(email));
            } else {
                if k < before.len() {
                    assert(before[k] == email);
                }
                assert(before.contains(email));
                let i = choose|i: int|
                    0 <= i < rest.len() && #[trigger] rest[i] == VerdictView::Invite(email);
                assert(verdicts[i] == VerdictView::Invite(email));
            }
        }
        if exists|i: int|
            0 <= i < verdicts.len() && #[trigger] verdicts[i] == VerdictView::Invite(email) {
            let i = choose|i: int|
                0 <= i < verdicts.len() && #[trigger] verdicts[i] == VerdictView::Invite(email);
            if i < rest.len() {
                assert(rest[i] == VerdictView::Invite(email));
                assert(before.contains(email));
                let k = choose|k: int| 0 <= k < before.len() && before[k] == email;
                assert(invitations(verdicts)[k] == email);
            } else {
                assert(invitations(verdicts) == before.push(email));
                assert(invitations(verdicts)[before.len() as int] == email);
            }
        }
    }
}

/// No more addresses are invited than there are verdicts.
pub proof fn lemma_invitations_len(verdicts: Seq<VerdictView>)
    ensures
        invitations(verdicts).len() <= verdicts.len(),
    decreases verdicts.len(),
{
    if verdicts.len() > 0 {
        lemma_invitations_len(verdicts.drop_last());
    }
}

proof fn lemma_invitations_without(verdicts: Seq<VerdictView>, i: int)
    requires
        0 <= i < verdicts.len(),
        !(verdicts[i] is Invite),
    ensures
        invitations(verdicts.remove(i)) == invitations(verdicts),
    decreases verdicts.len(),
{
    if i == verdicts.len() - 1 {
        assert(verdicts.remove(i) =~= verdicts.drop_last());
    } else {
        lemma_invitations_without(verdicts.drop_last(), i);
        assert(verdicts.remove(i).drop_last() =~= verdicts.drop_last().remove(i));
        assert(verdicts.remove(i).last() == verdicts.last());
    }
}

/// A record without a mail address is never invited and costs the pass
/// nothing: its verdict says that the address is missing, and the pass
/// invites whom it would invite without that record.
pub proof fn lemma_missing_mail_is_skipped(
    existing: Set<Seq<char>>,
    records: Seq<Map<Seq<char>, Seq<Seq<char>>>>,
    mail_field: Seq<char>,
    i: int,
)
    requires
        0 <= i < records.len(),
        first_value(records[i], mail_field) is None,
    ensures
        plan_of(existing, candidates_of(records, mail_field)).verdicts[i]
            == VerdictView::MissingMail(first_value(records[i], "uid"@)),
        plan_of(existing, candidates_of(records.remove(i), mail_field)).invites == plan_of(
            existing,
            candidates_of(records, mail_field),
        ).invites,
{
    let with = candidates_of(records, mail_field);
    let without = candidates_of(records.remove(i), mail_field);
    assert(without =~= with.remove(i));
    assert forall|n: int, key: Seq<char>| 0 <= n <= i implies (seen_before(without, n, key)
        <==> seen_before(with, n, key)) by {
        if seen_before(without, n, key) {
            let j = choose|j: int|
                0 <= j < n && j < without.len() && #[trigger] has_key(without[j], key);
            assert(has_key(with[j], key));
        }
        if seen_before(with, n, key) {
            let j = choose|j: int| 0 <= j < n && j < with.len() && #[trigger] has_key(with[j], key);
            assert(has_key(without[j], key));
        }
    }
    assert forall|n: int, key: Seq<char>| i <= n < without.len() implies (seen_before(
        without,
        n,
        key,
    ) <==> seen_before(with, n + 1, key)) by {
        if seen_before(without, n, key) {
            let j = choose|j: int|
                0 <= j < n && j < without.len() && #[trigger] has_key(without[j], key);
            if j < i {
                assert(has_key(with[j], key));
            } else {
                assert(has_key(with[j + 1], key));
            }
        }
        if seen_before(with, n + 1, key) {
            let j = choose|j: int|
                0 <= j < n + 1 && j < with.len() && #[trigger] has_key(with[j], key);
            if j < i {
                assert(has_key(without[j], key));
            } else {
                assert(j != i);
                assert(has_key(without[j - 1], key));
            }
        }
    }
    assert(verdicts(existing, without) =~= verdicts(existing, with).remove(i));
    lemma_invitations_without(verdicts(existing, with), i);
}

/// No address is invited twice in one pass: of two candidates with the same
/// key, the later one is never to be invited.
pub proof fn lemma_no_key_is_invited_twice(
    existing: Set<Seq<char>>,
    candidates: Seq<CandidateView>,
    i: int,
    j: int,
)
    requires
        0 <= i < j < candidates.len(),
        candidates[i].mail is Some,
        has_key(candidates[j], candidates[i].mail.unwrap().1),
    ensures
        !(verdict(existing, candidates, j) is Invite),
{
    assert(has_key(candidates[i], candidates[i].mail.unwrap().1));
}

/// A pass repeated finds nothing to do. Once the server knows, besides the
/// addresses it knew, every address that a pass invited, a pass over the
/// same records invites nobody.
pub proof fn lemma_second_pass_invites_nobody(
    existing: Set<Seq<char>>,
    later: Set<Seq<char>>,
    records: Seq<Map<Seq<char>, Seq<Seq<char>>>>,
    mail_field: Seq<char>,
)
    requires
        existing.subset_of(later),
        forall|email: Seq<char>|
            plan_of(existing, candidates_of(records, mail_field)).invites.contains(email)
                ==> later.contains(lowercase(email)),
    ensures
        plan_of(later, candidates_of(records, mail_field)).invites == Seq::<Seq<char>>::empty(),
{
    let candidates = candidates_of(records, mail_field);
    let first = verdicts(existing, candidates);
    let second = verdicts(later, candidates);
    assert forall|i: int|
        0 <= i < candidates.len() && candidates[i].mail is Some implies later.contains(
        candidates[i].mail.unwrap().1,
    ) by {
        lemma_key_is_known_after(existing, later, records, mail_field, i);
    }
    assert forall|i: int| 0 <= i < second.len() implies !(#[trigger] second[i] is Invite) by {}
    lemma_no_invite_no_invitation(second);
}

proof fn lemma_key_is_known_after(
    existing: Set<Seq<char>>,
    later: Set<Seq<char>>,
    records: Seq<Map<Seq<char>, Seq<Seq<char>>>>,
    mail_field: Seq<char>,
    i: int,
)
    requires
        existing.subset_of(later),
        forall|email: Seq<char>|
            plan_of(existing, candidates_of(records, mail_field)).invites.contains(email)
                ==> later.contains(lowercase(email)),
        0 <= i < records.len(),
        candidates_of(records, mail_field)[i].mail is Some,
    ensures
        later.contains(candidates_of(records, mail_field)[i].mail.unwrap().1),
    decreases i,
{
    let candidates = candidates_of(records, mail_field);
    let first = verdicts(existing, candidates);
    let (email, key) = candidates[i].mail.unwrap();
    if existing.contains(key) {
        assert(later.contains(key));
    } else if seen_before(candidates, i, key) {
        let j = choose|j: int|
            0 <= j < i && j < candidates.len() && #[trigger] has_key(candidates[j], key);
        lemma_key_is_known_after(existing, later, records, mail_field, j);
        assert(later.contains(key));
    } else {
        assert(first[i] == VerdictView::Invite(email));
        lemma_invitations(first, email);
        assert(invitations(first).contains(email));
        assert(plan_of(existing, candidates).invites.contains(email));
        assert(key == lowercase(email));
        assert(later.contains(key));
    }
}

proof fn lemma_no_invite_no_invitation(verdicts: Seq<VerdictView>)
    requires
        forall|i: int| 0 <= i < verdicts.len() ==> !(#[trigger] verdicts[i] is Invite),
    ensures
        invitations(verdicts) == Seq::<Seq<char>>::empty(),
    decreases verdicts.len(),
{
    if verdicts.len() > 0 {
        assert(!(verdicts[verdicts.len() - 1] is Invite));
        lemma_no_invite_no_invitation(verdicts.drop_last());
    }
}

/// Whether every candidate that has a mail address has its lowercase form
/// as the key.
pub open spec fn keyed_by_lowercase(candidates: Seq<CandidateView>) -> bool {
    forall|i: int|
        0 <= i < candidates.len() && (#[trigger] candidates[i]).mail is Some
            ==> candidates[i].mail.unwrap().1 == lowercase(candidates[i].mail.unwrap().0)
}

proof fn lemma_invited_so_far(existing: Set<Seq<char>>, candidates: Seq<CandidateView>, n: int)
    requires
        0 <= n <= candidates.len(),
        keyed_by_lowercase(candidates),
    ensures
        ({
            let invited = invitations(verdicts(existing, candidates).take(n));
            &&& forall|a: int|
                0 <= a < invited.len() ==> !existing.contains(lowercase(#[trigger] invited[a]))
                    && seen_before(candidates, n, lowercase(invited[a]))
            &&& forall|a: int, b: int|
                0 <= a < b < invited.len() ==> lowercase(#[trigger] invited[a]) != lowercase(
                    #[trigger] invited[b],
                )
        }),
    decreases n,
{
    if n > 0 {
        let before = invitations(verdicts(existing, candidates).take(n - 1));
        let invited = invitations(verdicts(existing, candidates).take(n));
        lemma_invited_so_far(existing, candidates, n - 1);
        lemma_plan_next(existing, candidates, n - 1);
        assert forall|a: int| 0 <= a < before.len() implies seen_before(
            candidates,
            n,
            lowercase(#[trigger] before[a]),
        ) by {
            let key = lowercase(before[a]);
            let j = choose|j: int|
                0 <= j < n - 1 && j < candidates.len() && #[trigger] has_key(candidates[j], key);
            assert(has_key(candidates[j], key));
        }
        match verdict(existing, candidates, n - 1) {
            VerdictView::Invite(email) => {
                assert(invited == before.push(email));
                assert(candidates[n - 1].mail is Some);
                assert(has_key(candidates[n - 1], lowercase(email)));
                assert(!seen_before(candidates, n - 1, lowercase(email)));
            },
            _ => {
                assert(invited == before);
            },
        }
    } else {
        assert(verdicts(existing, candidates).take(0) =~= Seq::<VerdictView>::empty());
    }
}

/// The addresses that a pass invites differ from those that the server
/// knows and from each other, however they are written: none has the
/// lowercase form of an address of the server, and no two have the same.
pub proof fn lemma_invited_addresses_differ(
    existing: Set<Seq<char>>,
    records: Seq<Map<Seq<char>, Seq<Seq<char>>>>,
    mail_field: Seq<char>,
)
    ensures
        ({
            let invites = plan_of(existing, candidates_of(records, mail_field)).invites;
            &&& forall|a: int|
                0 <= a < invites.len() ==> !existing.contains(lowercase(#[trigger] invites[a]))
            &&& forall|a: int, b: int|
                0 <= a < b < invites.len() ==> lowercase(#[trigger] invites[a]) != lowercase(
                    #[trigger] invites[b],
                )
        }),
{
    let candidates = candidates_of(records, mail_field);
    lemma_invited_so_far(existing, candidates, candidates.len() as int);
    assert(verdicts(existing, candidates).take(candidates.len() as int) =~= verdicts(
        existing,
        candidates,
    ));
}

} // verus!
