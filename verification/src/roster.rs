//! The server's roster, boiled down to what a pass compares with: the set of
//! its users' mail addresses in lowercase.

use crate::model::{lemma_views_push, views};
use crate::report::{EmailSet, Notice, NoticeView};
use crate::text::{lowercase, to_lowercase};
use crate::vw_admin::{User, UserView, DISABLED_STATUS};
use vstd::prelude::*;

verus! {

/// The mail addresses of `users`, each in lowercase.
pub open spec fn roster_keys(users: Seq<UserView>) -> Set<Seq<char>> {
    users.map_values(|user: UserView| lowercase(user.email)).to_set()
}

/// One notice for each of `users`, in order, with the address as the server
/// has it and whether the account is disabled.
pub open spec fn roster_notices(users: Seq<UserView>) -> Seq<NoticeView> {
    users.map_values(
        |user: UserView|
            NoticeView::ExistingUser {
                email: user.email,
                disabled: user.status == DISABLED_STATUS,
            },
    )
}

proof fn lemma_roster_next(users: Seq<UserView>, n: int)
    requires
        0 <= n < users.len(),
    ensures
        roster_keys(users.take(n + 1)) == roster_keys(users.take(n)).insert(
            lowercase(users[n].email),
        ),
        roster_notices(users.take(n + 1)) == roster_notices(users.take(n)).push(
            NoticeView::ExistingUser {
                email: users[n].email,
                disabled: users[n].status == DISABLED_STATUS,
            },
        ),
{
    let key = |user: UserView| lowercase(user.email);
    let before = users.take(n).map_values(key);
    assert(users.take(n + 1).map_values(key) =~= before.push(lowercase(users[n].email)));
    before.lemma_push_to_set_commute(lowercase(users[n].email));
    assert(roster_notices(users.take(n + 1)) =~= roster_notices(users.take(n)).push(
        NoticeView::ExistingUser {
            email: users[n].email,
            disabled: users[n].status == DISABLED_STATUS,
        },
    ));
}

/// Collects the addresses that the server knows, in lowercase, and says of
/// each user whether the account is disabled.
pub fn get_existing_users(users: &Vec<User>) -> (r: (EmailSet, Vec<Notice>))
    ensures
        r.0@ == roster_keys(views(users@)),
        views(r.1@) == roster_notices(views(users@)),
{
    let mut user_emails = EmailSet::new();
    let mut notices: Vec<Notice> = Vec::new();
    let mut i: usize = 0;
    proof {
        assert(views(users@).take(0) =~= Seq::<UserView>::empty());
        assert(roster_keys(Seq::<UserView>::empty()) =~= Set::<Seq<char>>::empty());
        assert(views(notices@) =~= roster_notices(Seq::<UserView>::empty()));
    }
    while i < users.len()
        invariant
            i <= users.len(),
            user_emails@ == roster_keys(views(users@).take(i as int)),
            views(notices@) == roster_notices(views(users@).take(i as int)),
        decreases users.len() - i,
    {
        let user = &users[i];
        let email = user.get_email();
        user_emails.insert(to_lowercase(email.as_str()));
        proof {
            lemma_roster_next(views(users@), i as int);
            lemma_views_push(
                notices@,
                Notice::ExistingUser { email, disabled: user@.status == DISABLED_STATUS },
            );
        }
        notices.push(Notice::ExistingUser { email, disabled: user.is_disabled() });
        i = i + 1;
    }
    proof {
        assert(views(users@).take(users.len() as int) =~= views(users@));
    }
    (user_emails, notices)
}

} // verus!
