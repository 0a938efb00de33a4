use crate::data::{User, UserId};
use crate::util::lower_of;
use vstd::pervasive::VecAdditionalExecFns;
use vstd::prelude::*;

verus! {

/// One live session token.  `prevtoken` links a rotated token to the one
/// it superseded; `regendate` marks a token as superseded at that time.
#[derive(Debug)]
pub struct TokenRow {
    pub user: UserId,
    pub token: String,
    pub tokendate: i64,
    pub regendate: Option<i64>,
    pub prevtoken: Option<String>,
    pub toktype: Option<String>,
}

impl Clone for TokenRow {
    /// A clone keeps every field.
    fn clone(&self) -> (r: TokenRow)
        ensures
            r == *self,
    {
        TokenRow {
            user: self.user,
            token: self.token.clone(),
            tokendate: self.tokendate,
            regendate: self.regendate,
            prevtoken: self.prevtoken.clone(),
            toktype: self.toktype.clone(),
        }
    }
}

/// A pending email change for a user, waiting for confirmation.
#[derive(Debug)]
pub struct NewEmailRow {
    pub user: UserId,
    pub email: String,
    pub token: String,
    pub tokendate: i64,
}

impl Clone for NewEmailRow {
    /// A clone keeps every field.
    fn clone(&self) -> (r: NewEmailRow)
        ensures
            r == *self,
    {
        NewEmailRow {
            user: self.user,
            email: self.email.clone(),
            token: self.token.clone(),
            tokendate: self.tokendate,
        }
    }
}

/// A pending password reset for a user.
#[derive(Debug)]
pub struct NewPasswordRow {
    pub user: UserId,
    pub token: String,
    pub tokendate: i64,
}

impl Clone for NewPasswordRow {
    /// A clone keeps every field.
    fn clone(&self) -> (r: NewPasswordRow)
        ensures
            r == *self,
    {
        NewPasswordRow { user: self.user, token: self.token.clone(), tokendate: self.tokendate }
    }
}

/// A single-use invitation.
#[derive(Debug)]
pub struct InviteRow {
    pub email: Option<String>,
    pub token: String,
    pub tokendate: i64,
    pub creator: UserId,
    pub data: Option<String>,
}

impl Clone for InviteRow {
    /// A clone keeps every field.
    fn clone(&self) -> (r: InviteRow)
        ensures
            r == *self,
    {
        InviteRow {
            email: self.email.clone(),
            token: self.token.clone(),
            tokendate: self.tokendate,
            creator: self.creator,
            data: self.data.clone(),
        }
    }
}

/// The relational state of the engine: user records, live session tokens
/// and the three kinds of pending-action records.
#[derive(Debug, Clone)]
pub struct Store {
    pub users: Vec<User>,
    pub tokens: Vec<TokenRow>,
    pub newemails: Vec<NewEmailRow>,
    pub newpasswords: Vec<NewPasswordRow>,
    pub invites: Vec<InviteRow>,
    pub next_id: i64,
}

impl Store {
    /// User names are compared case-insensitively: two names collide when
    /// their lowercase forms are equal.
    pub open spec fn has_name_key(self, key: Seq<char>) -> bool {
        exists|i: int|
            0 <= i < self.users@.len() && lower_of(#[trigger] self.users@[i].name@) == key
    }

    pub open spec fn has_uid(self, id: int) -> bool {
        exists|i: int| 0 <= i < self.users@.len() && (#[trigger] self.users@[i].id.as_int()) == id
    }

    pub open spec fn has_uuid(self, u: Seq<char>) -> bool {
        exists|i: int| 0 <= i < self.users@.len() && (#[trigger] self.users@[i].uuid@) == u
    }

    pub open spec fn has_token(self, t: Seq<char>) -> bool {
        exists|i: int| 0 <= i < self.tokens@.len() && (#[trigger] self.tokens@[i].token@) == t
    }

    pub open spec fn has_newemail(self, uid: int, t: Seq<char>) -> bool {
        exists|i: int|
            0 <= i < self.newemails@.len() && (#[trigger] self.newemails@[i]).user.as_int() == uid
                && self.newemails@[i].token@ == t
    }

    pub open spec fn has_newpassword(self, uid: int, t: Seq<char>) -> bool {
        exists|i: int|
            0 <= i < self.newpasswords@.len() && (#[trigger] self.newpasswords@[i]).user.as_int()
                == uid && self.newpasswords@[i].token@ == t
    }

    pub open spec fn has_invite(self, t: Seq<char>) -> bool {
        exists|i: int| 0 <= i < self.invites@.len() && (#[trigger] self.invites@[i].token@) == t
    }

    /// Well-formedness: row ids are unique and below the id counter, names
    /// are unique case-insensitively, uuids and token values are unique,
    /// pending rows are unique per (user, token), invites per token.
    pub open spec fn wf(self) -> bool {
        &&& 0 <= self.next_id
        &&& forall|i: int|
            0 <= i < self.users@.len() ==> lower_of(#[trigger] self.users@[i].name@)
                == self.users@[i].name@
        &&& forall|i: int, j: int|
            0 <= i < j < self.users@.len() ==> (#[trigger] self.users@[i].id.as_int()) != (
            #[trigger] self.users@[j].id.as_int())
        &&& forall|i: int, j: int|
            0 <= i < j < self.users@.len() ==> lower_of(#[trigger] self.users@[i].name@)
                != lower_of(#[trigger] self.users@[j].name@)
        &&& forall|i: int, j: int|
            0 <= i < j < self.users@.len() ==> (#[trigger] self.users@[i].uuid@) != (
            #[trigger] self.users@[j].uuid@)
        &&& forall|i: int|
            0 <= i < self.users@.len() ==> 0 <= (#[trigger] self.users@[i].id.as_int())
                < self.next_id
        &&& forall|i: int, j: int|
            0 <= i < j < self.tokens@.len() ==> (#[trigger] self.tokens@[i].token@) != (
            #[trigger] self.tokens@[j].token@)
        &&& forall|i: int, j: int|
            0 <= i < j < self.newemails@.len() ==> !((#[trigger] self.newemails@[i]).user == (
            #[trigger] self.newemails@[j]).user && self.newemails@[i].token@
                == self.newemails@[j].token@)
        &&& forall|i: int, j: int|
            0 <= i < j < self.newpasswords@.len() ==> !((#[trigger] self.newpasswords@[i]).user
                == (#[trigger] self.newpasswords@[j]).user && self.newpasswords@[i].token@
                == self.newpasswords@[j].token@)
        &&& forall|i: int, j: int|
            0 <= i < j < self.invites@.len() ==> (#[trigger] self.invites@[i].token@) != (
            #[trigger] self.invites@[j].token@)
    }

    /// An empty store.
    pub fn new() -> (r: Store)
        ensures
            r.wf(),
            r.users@.len() == 0,
            r.tokens@.len() == 0,
            r.newemails@.len() == 0,
            r.newpasswords@.len() == 0,
            r.invites@.len() == 0,
            r.next_id == 1,
    {
        Store {
            users: Vec::new(),
            tokens: Vec::new(),
            newemails: Vec::new(),
            newpasswords: Vec::new(),
            invites: Vec::new(),
            next_id: 1,
        }
    }

    /// Index of the user whose name collides case-insensitively with
    /// `lname`, which the caller has already lowercased.
    pub(crate) fn find_user_idx_by_lname(&self, lname: &String) -> (r: Option<usize>)
        ensures
            match r {
                Some(i) => i < self.users@.len() && lower_of(self.users@[i as int].name@)
                    == lname@,
                None => !self.has_name_key(lname@),
            },
    {
        let mut i: usize = 0;
        while i < self.users.len()
            invariant
                i <= self.users@.len(),
                forall|j: int|
                    0 <= j < i ==> lower_of(#[trigger] self.users@[j].name@) != lname@,
            decreases self.users@.len() - i,
        {
            let candidate = crate::util::lowercase(self.users[i].name.as_str());
            if candidate == *lname {
                return Some(i);
            }
            i = i + 1;
        }
        None
    }

    pub(crate) fn find_user_idx_by_id(&self, id: UserId) -> (r: Option<usize>)
        ensures
            match r {
                Some(i) => i < self.users@.len() && self.users@[i as int].id.as_int()
                    == id.as_int(),
                None => !self.has_uid(id.as_int()),
            },
    {
        let mut i: usize = 0;
        while i < self.users.len()
            invariant
                i <= self.users@.len(),
                forall|j: int| 0 <= j < i ==> (#[trigger] self.users@[j].id.as_int()) != id.as_int(),
            decreases self.users@.len() - i,
        {
            if self.users[i].id == id {
                return Some(i);
            }
            i = i + 1;
        }
        None
    }

    pub(crate) fn find_user_idx_by_uuid(&self, uuid: &String) -> (r: Option<usize>)
        ensures
            match r {
                Some(i) => i < self.users@.len() && self.users@[i as int].uuid@ == uuid@,
                None => !self.has_uuid(uuid@),
            },
    {
        let mut i: usize = 0;
        while i < self.users.len()
            invariant
                i <= self.users@.len(),
                forall|j: int| 0 <= j < i ==> (#[trigger] self.users@[j].uuid@) != uuid@,
            decreases self.users@.len() - i,
        {
            if self.users[i].uuid == *uuid {
                return Some(i);
            }
            i = i + 1;
        }
        None
    }

    pub(crate) fn find_token_idx(&self, token: &String) -> (r: Option<usize>)
        ensures
            match r {
                Some(i) => i < self.tokens@.len() && self.tokens@[i as int].token@ == token@,
                None => !self.has_token(token@),
            },
    {
        let mut i: usize = 0;
        while i < self.tokens.len()
            invariant
                i <= self.tokens@.len(),
                forall|j: int| 0 <= j < i ==> (#[trigger] self.tokens@[j].token@) != token@,
            decreases self.tokens@.len() - i,
        {
            if self.tokens[i].token == *token {
                return Some(i);
            }
            i = i + 1;
        }
        None
    }

    pub(crate) fn find_newemail_idx(&self, user: UserId, token: &String) -> (r: Option<usize>)
        ensures
            match r {
                Some(i) => i < self.newemails@.len() && self.newemails@[i as int].user.as_int()
                    == user.as_int() && self.newemails@[i as int].token@ == token@,
                None => !self.has_newemail(user.as_int(), token@),
            },
    {
        let mut i: usize = 0;
        while i < self.newemails.len()
            invariant
                i <= self.newemails@.len(),
                forall|j: int|
                    0 <= j < i ==> !((#[trigger] self.newemails@[j]).user.as_int() == user.as_int()
                        && self.newemails@[j].token@ == token@),
            decreases self.newemails@.len() - i,
        {
            if self.newemails[i].user == user && self.newemails[i].token == *token {
                return Some(i);
            }
            i = i + 1;
        }
        None
    }

    pub(crate) fn find_newpassword_idx(&self, user: UserId, token: &String) -> (r: Option<usize>)
        ensures
            match r {
                Some(i) => i < self.newpasswords@.len()
                    && self.newpasswords@[i as int].user.as_int() == user.as_int()
                    && self.newpasswords@[i as int].token@ == token@,
                None => !self.has_newpassword(user.as_int(), token@),
            },
    {
        let mut i: usize = 0;
        while i < self.newpasswords.len()
            invariant
                i <= self.newpasswords@.len(),
                forall|j: int|
                    0 <= j < i ==> !((#[trigger] self.newpasswords@[j]).user.as_int()
                        == user.as_int() && self.newpasswords@[j].token@ == token@),
            decreases self.newpasswords@.len() - i,
        {
            if self.newpasswords[i].user == user && self.newpasswords[i].token == *token {
                return Some(i);
            }
            i = i + 1;
        }
        None
    }

    pub(crate) fn find_invite_idx(&self, token: &String) -> (r: Option<usize>)
        ensures
            match r {
                Some(i) => i < self.invites@.len() && self.invites@[i as int].token@ == token@,
                None => !self.has_invite(token@),
            },
    {
        let mut i: usize = 0;
        while i < self.invites.len()
            invariant
                i <= self.invites@.len(),
                forall|j: int| 0 <= j < i ==> (#[trigger] self.invites@[j].token@) != token@,
            decreases self.invites@.len() - i,
        {
            if self.invites[i].token == *token {
                return Some(i);
            }
            i = i + 1;
        }
        None
    }
}

/// In a well-formed store no other user shares the name key of the user
/// at index `i`.
pub proof fn lemma_name_key_free(s: Store, i: int)
    requires
        s.wf(),
        0 <= i < s.users@.len(),
    ensures
        forall|j: int|
            0 <= j < s.users@.len() && j != i ==> lower_of(#[trigger] s.users@[j].name@)
                != lower_of(s.users@[i].name@),
{
    assert forall|j: int| 0 <= j < s.users@.len() && j != i implies lower_of(
        #[trigger] s.users@[j].name@,
    ) != lower_of(s.users@[i].name@) by {
        if j < i {
            assert(lower_of(s.users@[j].name@) != lower_of(s.users@[i].name@));
        } else {
            assert(lower_of(s.users@[i].name@) != lower_of(s.users@[j].name@));
        }
    }
}

/// A pairwise relation across a sequence still holds after removing one
/// element.
pub proof fn lemma_remove_pairwise<A>(s: Seq<A>, i: int, rel: spec_fn(A, A) -> bool)
    requires
        0 <= i < s.len(),
        forall|a: int, b: int| 0 <= a < b < s.len() ==> rel(#[trigger] s[a], #[trigger] s[b]),
    ensures
        forall|a: int, b: int|
            0 <= a < b < s.remove(i).len() ==> rel(#[trigger] s.remove(i)[a], #[trigger] s.remove(i)[b]),
{
    assert forall|a: int, b: int| 0 <= a < b < s.remove(i).len() implies rel(
        #[trigger] s.remove(i)[a],
        #[trigger] s.remove(i)[b],
    ) by {
        let a2 = if a < i { a } else { a + 1 };
        let b2 = if b < i { b } else { b + 1 };
        assert(s.remove(i)[a] == s[a2]);
        assert(s.remove(i)[b] == s[b2]);
        assert(rel(s[a2], s[b2]));
    }
}

/// Whether two stores hold the same rows and the same id counter.

pub open spec fn same_store(a: Store, b: Store) -> bool {
    &&& a.users@ == b.users@
    &&& a.tokens@ == b.tokens@
    &&& a.newemails@ == b.newemails@
    &&& a.newpasswords@ == b.newpasswords@
    &&& a.invites@ == b.invites@
    &&& a.next_id == b.next_id
}

/// Every element of a filtered sequence occurs in the original.
pub proof fn lemma_filter_contained<A>(s: Seq<A>, pred: spec_fn(A) -> bool)
    ensures
        forall|i: int|
            0 <= i < s.filter(pred).len() ==> s.contains(#[trigger] s.filter(pred)[i]),
    decreases s.len(),
{
    reveal(Seq::filter);
    if s.len() > 0 {
        lemma_filter_contained(s.drop_last(), pred);
        let f = s.filter(pred);
        let fd = s.drop_last().filter(pred);
        assert forall|i: int| 0 <= i < f.len() implies s.contains(#[trigger] f[i]) by {
            if pred(s.last()) && i == f.len() - 1 {
                assert(s[s.len() - 1] == f[i]);
            } else {
                assert(f[i] == fd[i]);
                assert(s.drop_last().contains(fd[i]));
                let j = choose|j: int|
                    0 <= j < s.drop_last().len() && s.drop_last()[j] == fd[i];
                assert(s[j] == f[i]);
            }
        }
    }
}

/// A pairwise relation that holds across a sequence, in index order,
/// still holds across its filtered subsequence.
pub proof fn lemma_filter_pairwise<A>(s: Seq<A>, pred: spec_fn(A) -> bool, rel: spec_fn(A, A) -> bool)
    requires
        forall|i: int, j: int| 0 <= i < j < s.len() ==> rel(#[trigger] s[i], #[trigger] s[j]),
    ensures
        forall|i: int, j: int|
            0 <= i < j < s.filter(pred).len() ==> rel(
                #[trigger] s.filter(pred)[i],
                #[trigger] s.filter(pred)[j],
            ),
    decreases s.len(),
{
    reveal(Seq::filter);
    if s.len() > 0 {
        let d = s.drop_last();
        lemma_filter_pairwise(d, pred, rel);
        lemma_filter_contained(d, pred);
        let f = s.filter(pred);
        let fd = d.filter(pred);
        assert forall|i: int, j: int| 0 <= i < j < f.len() implies rel(
            #[trigger] f[i],
            #[trigger] f[j],
        ) by {
            if pred(s.last()) && j == f.len() - 1 {
                assert(f[i] == fd[i]);
                assert(d.contains(fd[i]));
                let p = choose|p: int| 0 <= p < d.len() && d[p] == fd[i];
                assert(s[p] == f[i]);
                assert(s[s.len() - 1] == f[j]);
                assert(rel(s[p], s[s.len() - 1]));
            } else {
                assert(f[i] == fd[i] && f[j] == fd[j]);
            }
        }
    }
}

impl Store {
    /// Appends a user row whose keys were checked to be fresh and whose id
    /// is the next one to hand out.
    pub(crate) fn push_user(&mut self, user: User)
        requires
            old(self).wf(),
            old(self).next_id < i64::MAX,
            user.id.as_int() == old(self).next_id,
            lower_of(user.name@) == user.name@,
            !old(self).has_name_key(lower_of(user.name@)),
            !old(self).has_uuid(user.uuid@),
        ensures
            final(self).wf(),
            final(self).users@ == old(self).users@.push(user),
            final(self).next_id == old(self).next_id + 1,
            final(self).tokens@ == old(self).tokens@,
            final(self).newemails@ == old(self).newemails@,
            final(self).newpasswords@ == old(self).newpasswords@,
            final(self).invites@ == old(self).invites@,
    {
        self.users.push(user);
        self.next_id = self.next_id + 1;
        proof {
            let users = self.users@;
            let n = users.len() - 1;
            assert forall|i: int, j: int| 0 <= i < j < users.len() implies (
                #[trigger] users[i].id.as_int()) != (#[trigger] users[j].id.as_int()) by {
                if j < n {
                    assert(old(self).users@[i].id.as_int() != old(self).users@[j].id.as_int());
                }
            }
            assert forall|i: int, j: int| 0 <= i < j < users.len() implies lower_of(
                #[trigger] users[i].name@,
            ) != lower_of(#[trigger] users[j].name@) by {
                if j < n {
                    assert(lower_of(old(self).users@[i].name@) != lower_of(
                        old(self).users@[j].name@,
                    ));
                }
            }
            assert forall|i: int, j: int| 0 <= i < j < users.len() implies (
                #[trigger] users[i].uuid@) != (#[trigger] users[j].uuid@) by {
                if j < n {
                    assert(old(self).users@[i].uuid@ != old(self).users@[j].uuid@);
                }
            }
            assert forall|i: int| 0 <= i < users.len() implies 0 <= (
            #[trigger] users[i].id.as_int()) < self.next_id by {
                if i < n {
                    assert(0 <= old(self).users@[i].id.as_int() < old(self).next_id);
                } else {
                    assert(users[i] == user);
                    assert(user.id.as_int() == old(self).next_id);
                }
            }
            assert forall|i: int| 0 <= i < users.len() implies lower_of(
                #[trigger] users[i].name@,
            ) == users[i].name@ by {
                if i < n {
                    assert(lower_of(old(self).users@[i].name@) == old(self).users@[i].name@);
                }
            }
        }
    }
}

impl Store {
    /// Replaces the user row at `i` by one with the same id and uuid,
    /// whose case-insensitive name key no other user holds.
    pub(crate) fn set_user_row(&mut self, i: usize, user: User)
        requires
            old(self).wf(),
            i < old(self).users@.len(),
            user.id == old(self).users@[i as int].id,
            user.uuid@ == old(self).users@[i as int].uuid@,
            lower_of(user.name@) == user.name@,
            forall|j: int|
                0 <= j < old(self).users@.len() && j != i as int ==> lower_of(
                    #[trigger] old(self).users@[j].name@,
                ) != lower_of(user.name@),
        ensures
            final(self).wf(),
            final(self).users@ == old(self).users@.update(i as int, user),
            final(self).next_id == old(self).next_id,
            final(self).tokens@ == old(self).tokens@,
            final(self).newemails@ == old(self).newemails@,
            final(self).newpasswords@ == old(self).newpasswords@,
            final(self).invites@ == old(self).invites@,
    {
        self.users.set(i, user);
        proof {
            let users = self.users@;
            let ii = i as int;
            assert forall|a: int, b: int| 0 <= a < b < users.len() implies (
                #[trigger] users[a].id.as_int()) != (#[trigger] users[b].id.as_int()) by {
                assert(old(self).users@[a].id.as_int() != old(self).users@[b].id.as_int());
            }
            assert forall|a: int, b: int| 0 <= a < b < users.len() implies lower_of(
                #[trigger] users[a].name@,
            ) != lower_of(#[trigger] users[b].name@) by {
                if a != ii && b != ii {
                    assert(lower_of(old(self).users@[a].name@) != lower_of(
                        old(self).users@[b].name@,
                    ));
                }
            }
            assert forall|a: int, b: int| 0 <= a < b < users.len() implies (
                #[trigger] users[a].uuid@) != (#[trigger] users[b].uuid@) by {
                assert(old(self).users@[a].uuid@ != old(self).users@[b].uuid@);
            }
            assert forall|a: int| 0 <= a < users.len() implies 0 <= (
            #[trigger] users[a].id.as_int()) < self.next_id by {
                assert(0 <= old(self).users@[a].id.as_int() < old(self).next_id);
            }
            assert forall|a: int| 0 <= a < users.len() implies lower_of(
                #[trigger] users[a].name@,
            ) == users[a].name@ by {
                if a != ii {
                    assert(lower_of(old(self).users@[a].name@) == old(self).users@[a].name@);
                }
            }
        }
    }
}

/// Filtering a sequence extended by one element keeps the filtered prefix
/// and appends the element exactly when it satisfies the predicate.
pub proof fn lemma_filter_push<A>(s: Seq<A>, x: A, p: spec_fn(A) -> bool)
    ensures
        s.push(x).filter(p) == if p(x) {
            s.filter(p).push(x)
        } else {
            s.filter(p)
        },
{
    reveal_with_fuel(Seq::filter, 2);
    assert(s.push(x).drop_last() =~= s);
    assert(s.push(x).last() == x);
}

} // verus!
