use crate::crypto::hash_of;
use crate::data::{RegistrationData, User};
use crate::dbfun::{
    chain_removes, password_set, pwd_matches, prune_condition, resolves_ok, rotation_applied,
    store_push_user, token_joins, user_row_of, REGEN_MS,
};
use crate::store::{
    lemma_filter_contained, lemma_filter_pairwise, Store, TokenRow,
};
use crate::util::{expired, lower_of};
use vstd::prelude::*;

verus! {

/// Uniqueness: two distinct users of a well-formed store never share a
/// name, compared case-insensitively.  (That a duplicate insertion fails
/// with a conflict is part of the contract of `dbfun::new_user`.)
pub proof fn lemma_name_uniqueness(s: Store, i: int, j: int)
    requires
        s.wf(),
        0 <= i < s.users@.len(),
        0 <= j < s.users@.len(),
        i != j,
    ensures
        lower_of(s.users@[i].name@) != lower_of(s.users@[j].name@),
{
    if i < j {
        assert(lower_of(s.users@[i].name@) != lower_of(s.users@[j].name@));
    } else {
        assert(lower_of(s.users@[j].name@) != lower_of(s.users@[i].name@));
    }
}

/// Password round trip, first half: immediately after `new_user` wrote a
/// row for a registration payload, the payload's password verifies.
pub proof fn lemma_password_round_trip_create(
    prev: Store,
    cur: Store,
    rd: RegistrationData,
    key: Option<String>,
    admin: bool,
    remote_url: Option<String>,
    cookie: Option<String>,
    u: User,
)
    requires
        store_push_user(prev, cur, u),
        user_row_of(u, rd, key, admin, remote_url, cookie),
    ensures
        pwd_matches(u, rd.pwd@),
{
}

/// Password round trip, second half: immediately after a password
/// change or override set `pwd`, that password verifies.
pub proof fn lemma_password_round_trip_change(stored: User, new: User, pwd: Seq<char>)
    requires
        password_set(stored, new, pwd),
    ensures
        pwd_matches(new, pwd),
{
}

/// After a password was set to `pwd`, any other candidate passes
/// verification exactly when its digest collides with the digest of
/// `pwd` under the same salt.  With a collision-resistant digest that is
/// the closest statement to "no other password verifies" that holds.
pub proof fn lemma_password_determined(stored: User, new: User, pwd: Seq<char>, other: Seq<char>)
    requires
        password_set(stored, new, pwd),
    ensures
        pwd_matches(new, other) <==> hash_of(other, new.salt@) == hash_of(pwd, new.salt@),
{
}

/// Rotation tolerance, first half: a rotation of `t0` into `t1` keeps
/// the row of `t0` in place, so `t0` still resolves afterwards whenever
/// it would have resolved before.
pub proof fn lemma_rotation_tolerance(
    prev: Store,
    cur: Store,
    t0: Seq<char>,
    t1: Seq<char>,
    m: i64,
    exp: Option<i64>,
    at: i64,
)
    requires
        prev.wf(),
        rotation_applied(prev, cur, t0, t1, m),
        cur.users@ == prev.users@,
        resolves_ok(prev, t0, exp, at),
    ensures
        resolves_ok(cur, t0, exp, at),
{
    let (i0, j0) = choose|i: int, j: int|
        #![trigger prev.tokens@[i], prev.users@[j]]
        token_joins(prev, t0, i, j) && crate::dbfun::token_ok(
            prev.users@[j],
            prev.tokens@[i].tokendate,
            exp,
            at,
        );
    let i1 = choose|i: int|
        #![trigger prev.tokens@[i]]
        {
            let last = cur.tokens@.last();
            &&& 0 <= i < prev.tokens@.len()
            &&& prev.tokens@[i].token@ == t0
            &&& cur.tokens@ == prev.tokens@.update(i, crate::dbfun::marked_row(prev.tokens@[i], m)).push(last)
        };
    if i0 < i1 {
        assert(prev.tokens@[i0].token@ != prev.tokens@[i1].token@);
    } else if i1 < i0 {
        assert(prev.tokens@[i1].token@ != prev.tokens@[i0].token@);
    }
    assert(cur.tokens@[i0].token@ == t0);
    assert(cur.tokens@[i0].tokendate == prev.tokens@[i0].tokendate);
    assert(token_joins(cur, t0, i0, j0));
    assert(resolves_ok(cur, t0, exp, at));
}

/// Rotation tolerance, second half: after that rotation, resolving the
/// fresh token `t1` triggers the lazy chain pruning of `t0` exactly when
/// the grace period since the rotation mark has elapsed.  Together with
/// the contract of `read_user_by_token_api` (pruning deletes the
/// predecessor's row) this pins when `t0` stops resolving.
pub proof fn lemma_rotation_prune_due(
    prev: Store,
    cur: Store,
    t0: Seq<char>,
    t1: Seq<char>,
    m: i64,
    at: i64,
)
    requires
        prev.wf(),
        cur.wf(),
        rotation_applied(prev, cur, t0, t1, m),
        t0 != t1,
    ensures
        prune_condition(cur, t1, at) <==> m < at - REGEN_MS,
{
    let i1 = choose|i: int|
        #![trigger prev.tokens@[i]]
        {
            let last = cur.tokens@.last();
            &&& 0 <= i < prev.tokens@.len()
            &&& prev.tokens@[i].token@ == t0
            &&& cur.tokens@ == prev.tokens@.update(i, crate::dbfun::marked_row(prev.tokens@[i], m)).push(last)
        };
    let n = cur.tokens@.len() - 1;
    assert(cur.tokens@[n].token@ == t1);
    assert(cur.tokens@[i1].token@ == t0);
    assert(cur.tokens@[i1].regendate == Some(m));
    if m < at - REGEN_MS {
        assert(match cur.tokens@[n].prevtoken {
            Some(pt) => cur.tokens@[i1].token@ == pt@,
            None => false,
        });
        assert(prune_condition(cur, t1, at));
    }
    if prune_condition(cur, t1, at) {
        let (a, p) = choose|a: int, p: int|
            #![trigger cur.tokens@[a], cur.tokens@[p]]
            0 <= a < cur.tokens@.len() && 0 <= p < cur.tokens@.len() && cur.tokens@[a].token@ == t1
                && (match cur.tokens@[a].prevtoken {
                Some(pt) => cur.tokens@[p].token@ == pt@,
                None => false,
            }) && (match cur.tokens@[p].regendate {
                Some(d) => d < at - REGEN_MS,
                None => false,
            });
        if a < n {
            assert(cur.tokens@[a].token@ != cur.tokens@[n].token@);
        }
        assert(a == n);
        if p < i1 {
            assert(cur.tokens@[p].token@ != cur.tokens@[i1].token@);
        } else if i1 < p {
            assert(cur.tokens@[i1].token@ != cur.tokens@[p].token@);
        }
        assert(p == i1);
    }
}

/// Chain collapse: after the chain sweep, if every row other than the
/// kept one was linked into the removed chain (the shape left by
/// sequential rotations with no concurrent use), at most one row
/// remains, and it is the kept one.
pub proof fn lemma_chain_collapse(
    prev: Seq<TokenRow>,
    cur: Seq<TokenRow>,
    chain: Seq<Seq<char>>,
    keep: Seq<char>,
)
    requires
        forall|i: int, j: int|
            0 <= i < j < prev.len() ==> (#[trigger] prev[i].token@) != (#[trigger] prev[j].token@),
        cur == prev.filter((|t: TokenRow| !chain_removes(chain, t, keep))),
        forall|i: int|
            0 <= i < prev.len() ==> (#[trigger] prev[i].token@) == keep || chain.contains(
                prev[i].token@,
            ),
        !chain.contains(keep),
    ensures
        cur.len() <= 1,
        forall|i: int| 0 <= i < cur.len() ==> (#[trigger] cur[i].token@) == keep,
{
    let pred = |t: TokenRow| !chain_removes(chain, t, keep);
    lemma_filter_contained(prev, pred);
    lemma_filter_pairwise(prev, pred, |a: TokenRow, b: TokenRow| a.token@ != b.token@);
    assert forall|i: int| 0 <= i < cur.len() implies (#[trigger] cur[i].token@) == keep by {
        prev.lemma_filter_pred(pred, i);
        assert(prev.contains(cur[i]));
        let j = choose|j: int| 0 <= j < prev.len() && prev[j] == cur[i];
        assert(prev[j].token@ == keep || chain.contains(prev[j].token@));
    }
    if cur.len() >= 2 {
        assert(cur[0].token@ != cur[1].token@);
        assert(false);
    }
}

/// Chain collapse at the store level: consumes the prune delta that
/// `read_user_by_token_api` exposes.  If every row was either the kept
/// token's or linked into the removed chain (the shape left by
/// sequential rotations with no concurrent use), at most one token row
/// remains afterwards, and it is the kept one.
pub proof fn lemma_pruned_collapse(
    prev: Store,
    cur: Store,
    start: Seq<char>,
    keep: Seq<char>,
    chain: Seq<Seq<char>>,
)
    requires
        prev.wf(),
        crate::dbfun::chain_valid(prev.tokens@, chain, start),
        ({
            let mid = prev.tokens@.filter((|t: TokenRow| !chain_removes(chain, t, keep)));
            (cur.tokens@ == mid && !(cur.has_token(keep))) || exists|k: int|
                0 <= k < mid.len() && (#[trigger] mid[k]).token@ == keep && cur.tokens@
                    == mid.update(k, crate::dbfun::cleared_row(mid[k]))
        }),
        forall|i: int|
            0 <= i < prev.tokens@.len() ==> (#[trigger] prev.tokens@[i].token@) == keep
                || chain.contains(prev.tokens@[i].token@),
        !chain.contains(keep),
    ensures
        cur.tokens@.len() <= 1,
        forall|i: int|
            0 <= i < cur.tokens@.len() ==> (#[trigger] cur.tokens@[i].token@) == keep
                && cur.tokens@[i].prevtoken is None,
{
    let mid = prev.tokens@.filter((|t: TokenRow| !chain_removes(chain, t, keep)));
    lemma_chain_collapse(prev.tokens@, mid, chain, keep);
    assert forall|i: int| 0 <= i < cur.tokens@.len() implies (#[trigger] cur.tokens@[i].token@)
        == keep && cur.tokens@[i].prevtoken is None by {
        if cur.tokens@ == mid && !(cur.has_token(keep)) {
            assert(mid[i].token@ == keep);
            assert(cur.tokens@[i].token@ == keep);
            assert(false);
        } else {
            let k = choose|k: int|
                0 <= k < mid.len() && (#[trigger] mid[k]).token@ == keep && cur.tokens@
                    == mid.update(k, crate::dbfun::cleared_row(mid[k]));
            if i != k {
                assert(cur.tokens@[i] == mid[i]);
                assert(mid[i].token@ == keep);
                if i < k {
                    assert(mid[i].token@ != mid[k].token@);
                } else {
                    assert(mid[k].token@ != mid[i].token@);
                }
                assert(false);
            }
        }
    }
}

/// Expiration monotonicity: for every positive window, a token is not
/// expired one instant before the window closes and is expired one
/// instant after it closed.
pub proof fn lemma_expiration_window(window: int, issued: int)
    requires
        window > 0,
    ensures
        !expired(window, issued, issued + window - 1),
        expired(window, issued, issued + window + 1),
{
}

} // verus!
