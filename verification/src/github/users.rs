//! The set of users that the records of a pass refer to.
//!
//! The set is kept as a list without repetition, ordered by identifier
//! and, among users with one identifier, by login.

use crate::domain::github::{GitHubUser, GitHubUserView};
use crate::text::{
    chars_of, lemma_text_lt_transitive, lemma_text_total, precedes, same_text, text_lt,
};
use vstd::prelude::*;

verus! {

/// The views of a list of users.
pub open spec fn user_views(s: Seq<GitHubUser>) -> Seq<GitHubUserView> {
    Seq::new(s.len(), |i: int| s[i]@)
}

/// Whether `a` stands before `b` in the set.
pub open spec fn user_before(a: GitHubUserView, b: GitHubUserView) -> bool {
    a.id < b.id || (a.id == b.id && text_lt(a.login, b.login))
}

/// The set `s` with the user `u`: unchanged if `u` is in it, otherwise
/// with `u` before the first user that `u` stands before.
pub open spec fn with_user(s: Seq<GitHubUserView>, u: GitHubUserView) -> Seq<GitHubUserView>
    decreases s.len(),
{
    if s.len() == 0 {
        seq![u]
    } else if s[0] == u {
        s
    } else if user_before(u, s[0]) {
        seq![u] + s
    } else {
        seq![s[0]] + with_user(s.drop_first(), u)
    }
}

/// The set `s` with every user of `more`, added in the order of `more`.
pub open spec fn with_users(s: Seq<GitHubUserView>, more: Seq<GitHubUserView>) -> Seq<
    GitHubUserView,
>
    decreases more.len(),
{
    if more.len() == 0 {
        s
    } else {
        with_users(with_user(s, more[0]), more.drop_first())
    }
}

/// Adding a user keeps every user of the set and adds that user and no
/// other.
pub proof fn lemma_with_user_members(s: Seq<GitHubUserView>, u: GitHubUserView)
    ensures
        with_user(s, u).contains(u),
        forall|x: GitHubUserView| s.contains(x) ==> with_user(s, u).contains(x),
        forall|x: GitHubUserView| with_user(s, u).contains(x) ==> x == u || s.contains(x),
    decreases s.len(),
{
    let r = with_user(s, u);
    if s.len() == 0 {
        assert(r[0] == u);
    } else if s[0] == u {
        assert(s[0] == u);
    } else if user_before(u, s[0]) {
        assert(r[0] == u);
        assert forall|x: GitHubUserView| s.contains(x) implies r.contains(x) by {
            let i = choose|i: int| 0 <= i < s.len() && s[i] == x;
            assert(r[i + 1] == x);
        }
        assert forall|x: GitHubUserView| r.contains(x) implies x == u || s.contains(x) by {
            let i = choose|i: int| 0 <= i < r.len() && r[i] == x;
            if i > 0 {
                assert(s[i - 1] == x);
            }
        }
    } else {
        let rest = s.drop_first();
        let tail = with_user(rest, u);
        lemma_with_user_members(rest, u);
        let k = choose|k: int| 0 <= k < tail.len() && tail[k] == u;
        assert(r[k + 1] == u);
        assert forall|x: GitHubUserView| s.contains(x) implies r.contains(x) by {
            let i = choose|i: int| 0 <= i < s.len() && s[i] == x;
            if i == 0 {
                assert(r[0] == x);
            } else {
                assert(rest[i - 1] == x);
                assert(rest.contains(x));
                assert(tail.contains(x));
                let j = choose|j: int| 0 <= j < tail.len() && tail[j] == x;
                assert(r[j + 1] == x);
            }
        }
        assert forall|x: GitHubUserView| r.contains(x) implies x == u || s.contains(x) by {
            let i = choose|i: int| 0 <= i < r.len() && r[i] == x;
            if i == 0 {
                assert(s[0] == x);
            } else {
                assert(tail[i - 1] == x);
                assert(tail.contains(x));
                if x != u {
                    assert(rest.contains(x));
                    let j = choose|j: int| 0 <= j < rest.len() && rest[j] == x;
                    assert(s[j + 1] == x);
                }
            }
        }
    }
}

/// Whether the users stand in strictly increasing order.
pub open spec fn users_ascending(s: Seq<GitHubUserView>) -> bool {
    forall|i: int, j: int| 0 <= i < j < s.len() ==> user_before(#[trigger] s[i], #[trigger] s[j])
}

/// Adding a user to an ordered set leaves it ordered, so that no user
/// stands in it twice.
pub proof fn lemma_with_user_ascending(s: Seq<GitHubUserView>, u: GitHubUserView)
    requires
        users_ascending(s),
    ensures
        users_ascending(with_user(s, u)),
    decreases s.len(),
{
    let r = with_user(s, u);
    if s.len() == 0 || s[0] == u {
    } else if user_before(u, s[0]) {
        assert forall|i: int, j: int| 0 <= i < j < r.len() implies user_before(
            #[trigger] r[i],
            #[trigger] r[j],
        ) by {
            assert(r[j] == s[j - 1]);
            if i > 0 {
                assert(r[i] == s[i - 1]);
            } else if j > 1 {
                assert(user_before(s[0], s[j - 1]));
                if u.id == s[0].id && s[0].id == s[j - 1].id {
                    lemma_text_lt_transitive(u.login, s[0].login, s[j - 1].login);
                }
            }
        }
    } else {
        let rest = s.drop_first();
        let tail = with_user(rest, u);
        assert forall|i: int, j: int| 0 <= i < j < rest.len() implies user_before(
            #[trigger] rest[i],
            #[trigger] rest[j],
        ) by {
            assert(rest[i] == s[i + 1]);
            assert(rest[j] == s[j + 1]);
        }
        lemma_with_user_ascending(rest, u);
        lemma_with_user_members(rest, u);
        lemma_text_total(u.login, s[0].login);
        assert(user_before(s[0], u)) by {
            if u.id == s[0].id && u.login == s[0].login {
                assert(u == s[0]);
            }
        }
        assert forall|i: int, j: int| 0 <= i < j < r.len() implies user_before(
            #[trigger] r[i],
            #[trigger] r[j],
        ) by {
            assert(r[j] == tail[j - 1]);
            if i > 0 {
                assert(r[i] == tail[i - 1]);
            } else {
                assert(r[0] == s[0]);
                assert(tail.contains(tail[j - 1]));
                if tail[j - 1] != u {
                    assert(rest.contains(tail[j - 1]));
                    let m = choose|m: int| 0 <= m < rest.len() && rest[m] == tail[j - 1];
                    assert(rest[m] == s[m + 1]);
                    assert(user_before(s[0], s[m + 1]));
                }
            }
        }
    }
}

/// Adding users to an ordered set leaves it ordered.
pub proof fn lemma_with_users_ascending(s: Seq<GitHubUserView>, more: Seq<GitHubUserView>)
    requires
        users_ascending(s),
    ensures
        users_ascending(with_users(s, more)),
    decreases more.len(),
{
    if more.len() > 0 {
        lemma_with_user_ascending(s, more[0]);
        lemma_with_users_ascending(with_user(s, more[0]), more.drop_first());
    }
}

/// Adding users keeps every user of the set and adds each of them.
pub proof fn lemma_with_users_members(s: Seq<GitHubUserView>, more: Seq<GitHubUserView>)
    ensures
        forall|x: GitHubUserView| s.contains(x) ==> with_users(s, more).contains(x),
        forall|x: GitHubUserView| more.contains(x) ==> with_users(s, more).contains(x),
        forall|x: GitHubUserView|
            with_users(s, more).contains(x) ==> s.contains(x) || more.contains(x),
    decreases more.len(),
{
    if more.len() > 0 {
        let next = with_user(s, more[0]);
        let rest = more.drop_first();
        lemma_with_user_members(s, more[0]);
        lemma_with_users_members(next, rest);
        assert forall|x: GitHubUserView| more.contains(x) implies with_users(s, more).contains(
            x,
        ) by {
            let i = choose|i: int| 0 <= i < more.len() && more[i] == x;
            if i > 0 {
                assert(rest[i - 1] == x);
                assert(rest.contains(x));
            } else {
                assert(next.contains(x));
            }
        }
        assert forall|x: GitHubUserView| with_users(s, more).contains(x) implies s.contains(x)
            || more.contains(x) by {
            if next.contains(x) {
                if x == more[0] {
                    assert(more[0] == x);
                }
            } else {
                assert(rest.contains(x));
                let j = choose|j: int| 0 <= j < rest.len() && rest[j] == x;
                assert(more[j + 1] == x);
            }
        }
    }
}

/// Adds `user` to the set `users`.
pub fn add_user(users: &mut Vec<GitHubUser>, user: GitHubUser)
    ensures
        user_views(final(users)@) == with_user(user_views(old(users)@), user@),
{
    let login = chars_of(user.login.as_str());
    let ghost before = user_views(users@);
    let mut k: usize = 0;
    assert(before.skip(0) == before);
    assert(before.take(0) + with_user(before, user@) == with_user(before, user@));
    while k < users.len()
        invariant
            k <= users.len(),
            user_views(users@) == before,
            before == user_views(old(users)@),
            login@ == user@.login,
            with_user(before, user@) == before.take(k as int) + with_user(
                before.skip(k as int),
                user@,
            ),
        decreases users.len() - k,
    {
        let here = chars_of(users[k].login.as_str());
        let ghost rest = before.skip(k as int);
        assert(rest[0] == before[k as int]);
        assert(before[k as int] == users@[k as int]@);
        let same_login = same_text(&here, &login);
        if users[k].id == user.id && same_login {
            assert(rest[0] == user@);
            assert(before.take(k as int) + rest =~= before);
            return ;
        }
        if user.id < users[k].id || (user.id == users[k].id && precedes(&login, &here)) {
            users.insert(k, user);
            assert(user_views(users@) =~= before.take(k as int) + (seq![user@] + rest));
            return ;
        }
        assert(rest.drop_first() == before.skip(k + 1));
        assert(before.take(k as int) + (seq![rest[0]] + with_user(rest.drop_first(), user@))
            =~= before.take(k + 1) + with_user(before.skip(k + 1), user@));
        k = k + 1;
    }
    users.push(user);
    assert(before.skip(k as int).len() == 0);
    assert(user_views(users@) =~= before.take(k as int) + seq![user@]);
}

} // verus!
