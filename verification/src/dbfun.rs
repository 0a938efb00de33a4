use crate::crypto::{hash_of, hash_password};
use crate::data::{ChangeEmail, ChangePassword, ChangeRemoteUrl, Config, Login, LoginData, RegistrationData, User, UserId, UserInvite, UserResponse};
use crate::endpoints::Callbacks;
use crate::error::Error;
use crate::store::{lemma_filter_contained, lemma_filter_pairwise, lemma_name_key_free, lemma_remove_pairwise, same_store, InviteRow, Store, TokenRow, NewEmailRow, NewPasswordRow};
use crate::util::{lower_of, lowercase, salt_string, new_uuid_string};
use vstd::prelude::*;

verus! {

/// Whether `pwd` is the password behind a user's stored hash: the digest
/// of the candidate with the user's salt equals the stored hash.
pub open spec fn pwd_matches(u: User, pwd: Seq<char>) -> bool {
    u.hashwd@ == hash_of(pwd, u.salt@)
}

/// Recomputes the digest of the candidate with the user's salt and
/// compares it to the stored hash.
pub fn verify_password(u: &User, candidate: &str) -> (r: bool)
    ensures
        r == pwd_matches(*u, candidate@),
{
    let h = hash_password(candidate, u.salt.as_str());
    h == u.hashwd
}

/// Whether `ld` reports exactly the login-relevant fields of `u` (its
/// extra data blob is the host's business and not constrained here).
pub open spec fn login_data_of(u: User, ld: LoginData) -> bool {
    &&& ld.userid == u.id
    &&& ld.uuid@ == u.uuid@
    &&& ld.name@ == u.name@
    &&& ld.email@ == u.email@
    &&& ld.admin == u.admin
    &&& ld.active == u.active
    &&& ld.remote_url.deep_view() == u.remote_url.deep_view()
}

/// A federation cookie makes sense only together with a remote url, and
/// the other way round.
pub open spec fn cookie_remote_consistent(cookie: Option<String>, remote_url: Option<String>) -> bool {
    (cookie is Some) <==> (remote_url is Some)
}

/// The store delta of appending one user row: everything else untouched.
pub open spec fn store_push_user(prev: Store, cur: Store, u: User) -> bool {
    &&& cur.users@ == prev.users@.push(u)
    &&& cur.next_id == prev.next_id + 1
    &&& u.id.as_int() == prev.next_id
    &&& cur.tokens@ == prev.tokens@
    &&& cur.newemails@ == prev.newemails@
    &&& cur.newpasswords@ == prev.newpasswords@
    &&& cur.invites@ == prev.invites@
}

/// The row that `new_user` writes for a registration payload.
pub open spec fn user_row_of(
    u: User,
    rd: RegistrationData,
    registration_key: Option<String>,
    admin: bool,
    remote_url: Option<String>,
    cookie: Option<String>,
) -> bool {
    &&& u.name@ == lower_of(rd.uid@)
    &&& u.salt@.len() == 10
    &&& u.hashwd@ == hash_of(rd.pwd@, u.salt@)
    &&& u.email@ == rd.email@
    &&& u.registration_key.deep_view() == registration_key.deep_view()
    &&& u.admin == admin
    &&& u.active == true
    &&& u.remote_url.deep_view() == remote_url.deep_view()
    &&& u.cookie.deep_view() == cookie.deep_view()
}

/// Creates a user: lowercases the name, draws a fresh salt, hashes the
/// password, inserts the row, then hands the registration payload to the
/// host's user-created hook inside the same unit of work.  The name (and a
/// supplied uuid) must be free; a hook failure is reported to the caller
/// but the already-inserted row stays, as there is no enclosing
/// transaction here.
pub fn new_user<C: Callbacks>(
    store: &mut Store,
    rd: &RegistrationData,
    registration_key: Option<String>,
    data: Option<String>,
    admin: bool,
    uuid: Option<String>,
    creator: Option<UserId>,
    remote_url: Option<String>,
    remote_data: Option<String>,
    cookie: Option<String>,
    callbacks: &mut C,
) -> (r: Result<UserId, Error>)
    requires
        old(store).wf(),
        old(store).next_id < i64::MAX,
    ensures
        final(store).wf(),
        !cookie_remote_consistent(cookie, remote_url) ==> r is Err && same_store(
            *final(store),
            *old(store),
        ),
        cookie_remote_consistent(cookie, remote_url) && old(store).has_name_key(
            lower_of(rd.uid@),
        ) ==> (r matches Err(e) && e == Error::Conflict) && same_store(*final(store), *old(store)),
        r matches Ok(uid) ==> uid.as_int() == old(store).next_id && (exists|u: User|
            store_push_user(*old(store), *final(store), u) && user_row_of(
                u,
                *rd,
                registration_key,
                admin,
                remote_url,
                cookie,
            ) && (uuid matches Some(us) ==> u.uuid@ == us@)),
        r is Err ==> same_store(*final(store), *old(store)) || (exists|u: User|
            store_push_user(*old(store), *final(store), u) && user_row_of(
                u,
                *rd,
                registration_key,
                admin,
                remote_url,
                cookie,
            )),
        cookie_remote_consistent(cookie, remote_url) && !old(store).has_name_key(
            lower_of(rd.uid@),
        ) && (uuid matches Some(us) && old(store).has_uuid(us@)) ==> (r matches Err(e) && e
            == Error::Conflict) && same_store(*final(store), *old(store)),
{
    match (&cookie, &remote_url) {
        (Some(_), None) => {
            return Err(Error::Msg(String::from_str("remote_url required with cookie")));
        },
        (None, Some(_)) => {
            return Err(Error::Msg(String::from_str("cookie required with remote_url")));
        },
        _ => {},
    }
    let lname = lowercase(rd.uid.as_str());
    let key = lowercase(lname.as_str());
    match store.find_user_idx_by_lname(&key) {
        Some(_) => {
            return Err(Error::Conflict);
        },
        None => {},
    }
    let us = match uuid {
        Some(u) => u,
        None => new_uuid_string(),
    };
    match store.find_user_idx_by_uuid(&us) {
        Some(_) => {
            return Err(Error::Conflict);
        },
        None => {},
    }
    let salt = salt_string();
    let hashwd = hash_password(rd.pwd.as_str(), salt.as_str());
    let uid = UserId::Uid(store.next_id);
    let u = User {
        id: uid,
        uuid: us,
        name: lname,
        hashwd,
        salt,
        email: rd.email.clone(),
        registration_key,
        admin,
        active: true,
        remote_url,
        cookie,
    };
    let ghost gu = u;
    store.push_user(u);
    proof {
        assert(store_push_user(*old(store), *store, gu));
    }
    callbacks.on_new_user(rd, data, remote_data, creator, uid)?;
    Ok(uid)
}

/// The row that `phantom_user` writes: a placeholder for a user known
/// only remotely, with fixed `"phantom"` credentials.
pub open spec fn phantom_row_of(u: User, name: Seq<char>, uuid: Seq<char>, active: bool) -> bool {
    &&& u.name@ == lower_of(name)
    &&& u.uuid@ == uuid
    &&& u.hashwd@ == "phantom"@
    &&& u.salt@ == "phantom"@
    &&& u.email@ == "phantom"@
    &&& u.registration_key.deep_view() == Some("phantom"@)
    &&& u.admin == false
    &&& u.active == active
    &&& u.remote_url is None
    &&& u.cookie is None
}

/// Creates a placeholder row for a remote user, with unusable fixed
/// credentials, and runs the user-created hook.
pub fn phantom_user<C: Callbacks>(
    store: &mut Store,
    name: &String,
    uuid: String,
    extra_login_data: Option<String>,
    active: bool,
    callbacks: &mut C,
) -> (r: Result<UserId, Error>)
    requires
        old(store).wf(),
        old(store).next_id < i64::MAX,
    ensures
        final(store).wf(),
        old(store).has_name_key(lower_of(name@)) ==> (r matches Err(e) && e
            == Error::Conflict) && same_store(*final(store), *old(store)),
        !old(store).has_name_key(lower_of(name@)) && old(store).has_uuid(uuid@) ==> (
        r matches Err(e) && e == Error::Conflict) && same_store(*final(store), *old(store)),
        r matches Ok(uid) ==> uid.as_int() == old(store).next_id && (exists|u: User|
            store_push_user(*old(store), *final(store), u) && phantom_row_of(
                u,
                name@,
                uuid@,
                active,
            )),
        r is Err ==> same_store(*final(store), *old(store)) || (exists|u: User|
            store_push_user(*old(store), *final(store), u) && phantom_row_of(
                u,
                name@,
                uuid@,
                active,
            )),
{
    let lname = lowercase(name.as_str());
    let key = lowercase(lname.as_str());
    match store.find_user_idx_by_lname(&key) {
        Some(_) => {
            return Err(Error::Conflict);
        },
        None => {},
    }
    match store.find_user_idx_by_uuid(&uuid) {
        Some(_) => {
            return Err(Error::Conflict);
        },
        None => {},
    }
    let rd = RegistrationData {
        uid: lname.clone(),
        pwd: String::new(),
        email: String::new(),
        remote_url: String::new(),
    };
    let uid = UserId::Uid(store.next_id);
    let u = User {
        id: uid,
        uuid,
        name: lname,
        hashwd: String::from_str("phantom"),
        salt: String::from_str("phantom"),
        email: String::from_str("phantom"),
        registration_key: Some(String::from_str("phantom")),
        admin: false,
        active,
        remote_url: None,
        cookie: None,
    };
    let ghost gu = u;
    store.push_user(u);
    proof {
        assert(store_push_user(*old(store), *store, gu));
    }
    callbacks.on_new_user(&rd, None, extra_login_data, None, uid)?;
    Ok(uid)
}

/// Looks a user up by name, case-insensitively.
pub fn read_user_by_name(store: &Store, name: &str) -> (r: Result<User, Error>)
    ensures
        (r is Ok) == store.has_name_key(lower_of(name@)),
        match r {
            Ok(u) => exists|i: int|
                0 <= i < store.users@.len() && #[trigger] store.users@[i] == u && lower_of(u.name@)
                    == lower_of(name@),
            Err(e) => e == Error::NotFound,
        },
{
    let lname = crate::util::lowercase(name);
    match store.find_user_idx_by_lname(&lname) {
        Some(i) => {
            let u = store.users[i].clone();
            proof {
                assert(store.users@[i as int] == u);
            }
            Ok(u)
        },
        None => Err(Error::NotFound),
    }
}

/// Looks a user up by id.
pub fn read_user_by_id(store: &Store, id: UserId) -> (r: Result<User, Error>)
    ensures
        (r is Ok) == store.has_uid(id.as_int()),
        match r {
            Ok(u) => u.id == id && exists|i: int|
                0 <= i < store.users@.len() && #[trigger] store.users@[i] == u,
            Err(e) => e == Error::NotFound,
        },
{
    match store.find_user_idx_by_id(id) {
        Some(i) => {
            let u = store.users[i].clone();
            proof {
                assert(store.users@[i as int] == u);
            }
            Ok(u)
        },
        None => Err(Error::NotFound),
    }
}

/// Looks a user up by uuid.
pub fn read_user_by_uuid(store: &Store, uuid: &String) -> (r: Result<User, Error>)
    ensures
        (r is Ok) == store.has_uuid(uuid@),
        match r {
            Ok(u) => u.uuid@ == uuid@ && exists|i: int|
                0 <= i < store.users@.len() && #[trigger] store.users@[i] == u,
            Err(e) => e == Error::NotFound,
        },
{
    match store.find_user_idx_by_uuid(uuid) {
        Some(i) => {
            let u = store.users[i].clone();
            proof {
                assert(store.users@[i as int] == u);
            }
            Ok(u)
        },
        None => Err(Error::NotFound),
    }
}

/// The id of the user with this name, case-insensitively.
pub fn user_id(store: &Store, name: &str) -> (r: Result<UserId, Error>)
    ensures
        (r is Ok) == store.has_name_key(lower_of(name@)),
        match r {
            Ok(uid) => exists|i: int|
                0 <= i < store.users@.len() && (#[trigger] store.users@[i]).id == uid && lower_of(
                    store.users@[i].name@,
                ) == lower_of(name@),
            Err(e) => e == Error::NotFound,
        },
{
    let lname = crate::util::lowercase(name);
    match store.find_user_idx_by_lname(&lname) {
        Some(i) => Ok(store.users[i].id),
        None => Err(Error::NotFound),
    }
}

/// The login-relevant fields of a user, with no extra data attached.
pub fn login_data(store: &Store, uid: UserId) -> (r: Result<LoginData, Error>)
    ensures
        (r is Ok) == store.has_uid(uid.as_int()),
        match r {
            Ok(ld) => ld.data is None && exists|i: int|
                0 <= i < store.users@.len() && login_data_of(#[trigger] store.users@[i], ld)
                    && store.users@[i].id == uid,
            Err(e) => e == Error::NotFound,
        },
{
    match store.find_user_idx_by_id(uid) {
        Some(i) => {
            let u = &store.users[i];
            Ok(
                LoginData {
                    userid: u.id,
                    uuid: u.uuid.clone(),
                    name: u.name.clone(),
                    email: u.email.clone(),
                    admin: u.admin,
                    active: u.active,
                    remote_url: u.remote_url.clone(),
                    data: None,
                },
            )
        },
        None => Err(Error::NotFound),
    }
}

/// The login-relevant fields of a user, with the host's extra data blob
/// attached.  What the blob holds is the host's business.
pub fn login_data_cb<C: Callbacks>(store: &Store, uid: UserId, callbacks: &mut C) -> (r: Result<
    LoginData,
    Error,
>)
    ensures
        !store.has_uid(uid.as_int()) ==> (r matches Err(e) && e == Error::NotFound),
        match r {
            Ok(ld) => exists|i: int|
                0 <= i < store.users@.len() && login_data_of(#[trigger] store.users@[i], ld)
                    && store.users@[i].id == uid,
            Err(e) => true,
        },
{
    match store.find_user_idx_by_id(uid) {
        Some(i) => {
            let data = callbacks.extra_login_data(uid)?;
            let u = &store.users[i];
            Ok(
                LoginData {
                    userid: u.id,
                    uuid: u.uuid.clone(),
                    name: u.name.clone(),
                    email: u.email.clone(),
                    admin: u.admin,
                    active: u.active,
                    remote_url: u.remote_url.clone(),
                    data,
                },
            )
        },
        None => Err(Error::NotFound),
    }
}

/// The row that `update_user` leaves in place of `stored` given the patch
/// `patch`: id and uuid are immutable, the name is lowercased, the rest
/// is taken from the patch.
pub open spec fn user_updated(stored: User, patch: User, new: User) -> bool {
    &&& new.id == stored.id
    &&& new.uuid@ == stored.uuid@
    &&& new.name@ == lower_of(patch.name@)
    &&& new.hashwd@ == patch.hashwd@
    &&& new.salt@ == patch.salt@
    &&& new.email@ == patch.email@
    &&& new.registration_key.deep_view() == patch.registration_key.deep_view()
    &&& new.admin == patch.admin
    &&& new.active == patch.active
    &&& new.remote_url.deep_view() == patch.remote_url.deep_view()
    &&& new.cookie.deep_view() == patch.cookie.deep_view()
}

/// Rewrites the row with `user`'s id from the patch `user`; the name is
/// stored lowercased, and a name that would collide with another user is
/// refused.  A missing id is a silent no-op, as an update of no rows.
pub fn update_user(store: &mut Store, user: &User) -> (r: Result<(), Error>)
    requires
        old(store).wf(),
    ensures
        final(store).wf(),
        final(store).next_id == old(store).next_id,
        final(store).tokens@ == old(store).tokens@,
        final(store).newemails@ == old(store).newemails@,
        final(store).newpasswords@ == old(store).newpasswords@,
        final(store).invites@ == old(store).invites@,
        r is Ok <==> !old(store).has_uid(user.id.as_int()) || !(exists|j: int|
            0 <= j < old(store).users@.len() && (#[trigger] old(store).users@[j]).id != user.id
                && lower_of(old(store).users@[j].name@) == lower_of(user.name@)),
        match r {
            Ok(()) => (!old(store).has_uid(user.id.as_int()) && final(store).users@ == old(
                store,
            ).users@) || (exists|i: int|
                0 <= i < old(store).users@.len() && (#[trigger] old(store).users@[i]).id
                    == user.id && final(store).users@ == old(store).users@.update(
                    i,
                    final(store).users@[i],
                ) && user_updated(old(store).users@[i], *user, final(store).users@[i])),
            Err(e) => e == Error::Conflict && final(store).users@ == old(store).users@ && (exists|
                j: int,
            |
                0 <= j < old(store).users@.len() && (#[trigger] old(store).users@[j]).id != user.id
                    && lower_of(old(store).users@[j].name@) == lower_of(user.name@)),
        },
{
    let idx = match store.find_user_idx_by_id(user.id) {
        None => {
            return Ok(());
        },
        Some(i) => i,
    };
    let lname = lowercase(user.name.as_str());
    let key = lowercase(lname.as_str());
    match store.find_user_idx_by_lname(&key) {
        Some(j) => {
            if j != idx {
                proof {
                    assert(old(store).users@[j as int].id.as_int() != old(store).users@[idx as int].id.as_int());
                }
                return Err(Error::Conflict);
            }
            proof {
                assert forall|k: int|
                    0 <= k < old(store).users@.len() && (#[trigger] old(store).users@[k]).id
                        != user.id implies lower_of(old(store).users@[k].name@) != lower_of(
                    user.name@,
                ) by {
                    if k < j as int {
                        assert(lower_of(old(store).users@[k].name@) != lower_of(
                            old(store).users@[j as int].name@,
                        ));
                    } else if (j as int) < k {
                        assert(lower_of(old(store).users@[j as int].name@) != lower_of(
                            old(store).users@[k].name@,
                        ));
                    }
                }
            }
        },
        None => {},
    }
    let stored = &store.users[idx];
    let newu = User {
        id: stored.id,
        uuid: stored.uuid.clone(),
        name: lname,
        hashwd: user.hashwd.clone(),
        salt: user.salt.clone(),
        email: user.email.clone(),
        registration_key: user.registration_key.clone(),
        admin: user.admin,
        active: user.active,
        remote_url: user.remote_url.clone(),
        cookie: user.cookie.clone(),
    };
    store.set_user_row(idx, newu);
    Ok(())
}

/// Applies an admin patch of the login-relevant fields (name, email,
/// admin, active, remote url) to the user `ld.userid`, leaving the
/// credentials untouched.
pub open spec fn login_fields_updated(stored: User, ld: LoginData, new: User) -> bool {
    &&& new.id == stored.id
    &&& new.uuid@ == stored.uuid@
    &&& new.name@ == lower_of(ld.name@)
    &&& new.hashwd@ == stored.hashwd@
    &&& new.salt@ == stored.salt@
    &&& new.email@ == ld.email@
    &&& new.registration_key.deep_view() == stored.registration_key.deep_view()
    &&& new.admin == ld.admin
    &&& new.active == ld.active
    &&& new.remote_url.deep_view() == ld.remote_url.deep_view()
    &&& new.cookie.deep_view() == stored.cookie.deep_view()
}

/// Admin-only bulk update of a user's login-relevant fields.
pub fn update_login_data(store: &mut Store, ld: &LoginData) -> (r: Result<(), Error>)
    requires
        old(store).wf(),
    ensures
        final(store).wf(),
        final(store).next_id == old(store).next_id,
        final(store).tokens@ == old(store).tokens@,
        final(store).newemails@ == old(store).newemails@,
        final(store).newpasswords@ == old(store).newpasswords@,
        final(store).invites@ == old(store).invites@,
        (r matches Err(e) && e == Error::NotFound) <==> !old(store).has_uid(ld.userid.as_int()),
        (r matches Err(e) && e == Error::Conflict) <==> old(store).has_uid(ld.userid.as_int())
            && (exists|j: int|
            0 <= j < old(store).users@.len() && (#[trigger] old(store).users@[j]).id != ld.userid
                && lower_of(old(store).users@[j].name@) == lower_of(ld.name@)),
        r is Ok <==> old(store).has_uid(ld.userid.as_int()) && !(exists|j: int|
            0 <= j < old(store).users@.len() && (#[trigger] old(store).users@[j]).id != ld.userid
                && lower_of(old(store).users@[j].name@) == lower_of(ld.name@)),
        match r {
            Ok(()) => exists|i: int|
                0 <= i < old(store).users@.len() && (#[trigger] old(store).users@[i]).id
                    == ld.userid && final(store).users@ == old(store).users@.update(
                    i,
                    final(store).users@[i],
                ) && login_fields_updated(old(store).users@[i], *ld, final(store).users@[i]),
            Err(e) => final(store).users@ == old(store).users@,
        },
{
    let mut user = read_user_by_id(store, ld.userid)?;
    user.name = ld.name.clone();
    user.email = ld.email.clone();
    user.admin = ld.admin;
    user.active = ld.active;
    user.remote_url = ld.remote_url.clone();
    update_user(store, &user)
}

/// The row left by a password change: only the hash moves.
pub open spec fn password_set(stored: User, new: User, pwd: Seq<char>) -> bool {
    &&& new.id == stored.id
    &&& new.uuid@ == stored.uuid@
    &&& new.name@ == stored.name@
    &&& new.hashwd@ == hash_of(pwd, stored.salt@)
    &&& new.salt@ == stored.salt@
    &&& new.email@ == stored.email@
    &&& new.registration_key.deep_view() == stored.registration_key.deep_view()
    &&& new.admin == stored.admin
    &&& new.active == stored.active
    &&& new.remote_url.deep_view() == stored.remote_url.deep_view()
    &&& new.cookie.deep_view() == stored.cookie.deep_view()
}

/// Changes a password after verifying the old one.  A user still holding
/// a registration key must use `override_password` instead; here that
/// state is refused exactly like a bad password.
pub fn change_password(store: &mut Store, uid: UserId, cp: &ChangePassword) -> (r: Result<
    (),
    Error,
>)
    requires
        old(store).wf(),
    ensures
        final(store).wf(),
        final(store).next_id == old(store).next_id,
        final(store).tokens@ == old(store).tokens@,
        final(store).newemails@ == old(store).newemails@,
        final(store).newpasswords@ == old(store).newpasswords@,
        final(store).invites@ == old(store).invites@,
        (r matches Err(e) && e == Error::NotFound) <==> !old(store).has_uid(uid.as_int()),
        r is Err ==> final(store).users@ == old(store).users@,
        (r matches Err(e) && e == Error::InvalidCredentials) <==> (exists|i: int|
            0 <= i < old(store).users@.len() && (#[trigger] old(store).users@[i]).id == uid && (
            old(store).users@[i].registration_key is Some || !pwd_matches(
                old(store).users@[i],
                cp.oldpwd@,
            ))),
        r is Ok <==> (exists|i: int|
            0 <= i < old(store).users@.len() && (#[trigger] old(store).users@[i]).id == uid && old(
                store,
            ).users@[i].registration_key is None && pwd_matches(old(store).users@[i], cp.oldpwd@)),
        r is Ok ==> exists|i: int|
            0 <= i < old(store).users@.len() && (#[trigger] old(store).users@[i]).id == uid
                && final(store).users@ == old(store).users@.update(i, final(store).users@[i])
                && password_set(old(store).users@[i], final(store).users@[i], cp.newpwd@),
{
    let idx = match store.find_user_idx_by_id(uid) {
        None => {
            return Err(Error::NotFound);
        },
        Some(i) => i,
    };
    if store.users[idx].registration_key.is_some() {
        return Err(Error::InvalidCredentials);
    }
    if !verify_password(&store.users[idx], cp.oldpwd.as_str()) {
        return Err(Error::InvalidCredentials);
    }
    let stored = &store.users[idx];
    let newu = User {
        id: stored.id,
        uuid: stored.uuid.clone(),
        name: stored.name.clone(),
        hashwd: hash_password(cp.newpwd.as_str(), stored.salt.as_str()),
        salt: stored.salt.clone(),
        email: stored.email.clone(),
        registration_key: stored.registration_key.clone(),
        admin: stored.admin,
        active: stored.active,
        remote_url: stored.remote_url.clone(),
        cookie: stored.cookie.clone(),
    };
    proof {
        lemma_name_key_free(*store, idx as int);
    }
    store.set_user_row(idx, newu);
    Ok(())
}

/// Sets a password without proving the old one; only permitted while a
/// registration key is still pending, for users registered out of band.
pub fn override_password(store: &mut Store, uid: UserId, newpwd: String) -> (r: Result<(), Error>)
    requires
        old(store).wf(),
    ensures
        final(store).wf(),
        final(store).next_id == old(store).next_id,
        final(store).tokens@ == old(store).tokens@,
        final(store).newemails@ == old(store).newemails@,
        final(store).newpasswords@ == old(store).newpasswords@,
        final(store).invites@ == old(store).invites@,
        (r matches Err(e) && e == Error::NotFound) <==> !old(store).has_uid(uid.as_int()),
        r is Err ==> final(store).users@ == old(store).users@,
        (r matches Err(e) && e == Error::Registration) <==> (exists|i: int|
            0 <= i < old(store).users@.len() && (#[trigger] old(store).users@[i]).id == uid && old(
                store,
            ).users@[i].registration_key is None),
        r is Ok <==> (exists|i: int|
            0 <= i < old(store).users@.len() && (#[trigger] old(store).users@[i]).id == uid && old(
                store,
            ).users@[i].registration_key is Some),
        r is Ok ==> exists|i: int|
            0 <= i < old(store).users@.len() && (#[trigger] old(store).users@[i]).id == uid
                && final(store).users@ == old(store).users@.update(i, final(store).users@[i])
                && password_set(old(store).users@[i], final(store).users@[i], newpwd@),
{
    let idx = match store.find_user_idx_by_id(uid) {
        None => {
            return Err(Error::NotFound);
        },
        Some(i) => i,
    };
    if store.users[idx].registration_key.is_none() {
        return Err(Error::Registration);
    }
    let stored = &store.users[idx];
    let newu = User {
        id: stored.id,
        uuid: stored.uuid.clone(),
        name: stored.name.clone(),
        hashwd: hash_password(newpwd.as_str(), stored.salt.as_str()),
        salt: stored.salt.clone(),
        email: stored.email.clone(),
        registration_key: stored.registration_key.clone(),
        admin: stored.admin,
        active: stored.active,
        remote_url: stored.remote_url.clone(),
        cookie: stored.cookie.clone(),
    };
    proof {
        lemma_name_key_free(*store, idx as int);
    }
    store.set_user_row(idx, newu);
    Ok(())
}

/// Whether some stored user is reported by `ld`.
pub open spec fn some_user_matches(users: Seq<User>, ld: LoginData) -> bool {
    exists|j: int| 0 <= j < users.len() && login_data_of(#[trigger] users[j], ld)
}

/// All users, each with the host's extra data attached, in store order
/// and without repetition.  A user whose extra-data hook fails is left
/// out, as the sweep is best effort, so only the hook decides which
/// users are missing; the sweep itself never fails.
pub fn read_users<C: Callbacks>(store: &Store, callbacks: &mut C) -> (r: Result<
    Vec<LoginData>,
    Error,
>)
    requires
        store.wf(),
    ensures
        (r is Ok),
        match r {
            Ok(v) => v@.len() <= store.users@.len() && (forall|k: int|
                0 <= k < v@.len() ==> some_user_matches(store.users@, #[trigger] v@[k])) && (
            exists|m: Seq<int>|
                #![trigger m.len()]
                m.len() == v@.len() && (forall|k: int|
                    0 <= k < m.len() ==> 0 <= #[trigger] m[k] < store.users@.len()
                        && login_data_of(store.users@[m[k]], v@[k])) && (forall|k1: int, k2: int|
                    0 <= k1 < k2 < m.len() ==> #[trigger] m[k1] < #[trigger] m[k2])),
            Err(e) => false,
        },
{
    let mut out: Vec<LoginData> = Vec::new();
    let ghost mut picks: Seq<int> = Seq::empty();
    let mut i: usize = 0;
    while i < store.users.len()
        invariant
            store.wf(),
            i <= store.users@.len(),
            out@.len() <= i,
            picks.len() == out@.len(),
            forall|k: int|
                0 <= k < out@.len() ==> some_user_matches(store.users@, #[trigger] out@[k]),
            forall|k: int|
                0 <= k < picks.len() ==> 0 <= #[trigger] picks[k] < i && login_data_of(
                    store.users@[picks[k]],
                    out@[k],
                ),
            forall|k1: int, k2: int|
                0 <= k1 < k2 < picks.len() ==> #[trigger] picks[k1] < #[trigger] picks[k2],
        decreases store.users@.len() - i,
    {
        let uid = store.users[i].id;
        match login_data_cb(store, uid, callbacks) {
            Ok(ld) => {
                proof {
                    assert(some_user_matches(store.users@, ld));
                    let j0 = choose|j: int|
                        0 <= j < store.users@.len() && login_data_of(
                            #[trigger] store.users@[j],
                            ld,
                        ) && store.users@[j].id == uid;
                    if j0 < i as int {
                        assert(store.users@[j0].id.as_int() != store.users@[i as int].id.as_int());
                    } else if (i as int) < j0 {
                        assert(store.users@[i as int].id.as_int() != store.users@[j0].id.as_int());
                    }
                    assert(login_data_of(store.users@[i as int], ld));
                    picks = picks.push(i as int);
                }
                out.push(ld);
            },
            Err(_) => {},
        }
        i = i + 1;
    }
    Ok(out)
}


/// Removes every token row of one user.
#[verifier::loop_isolation(false)]
fn retain_tokens_not_of(v: &mut Vec<TokenRow>, uid: UserId)
    ensures
        final(v)@ == old(v)@.filter(|t: TokenRow| t.user.as_int() != uid.as_int()),
{
    let ghost pred = |t: TokenRow| t.user.as_int() != uid.as_int();
    let mut acc: Vec<TokenRow> = Vec::new();
    let mut i: usize = 0;
    proof {
        assert(old(v)@.subrange(0, 0) =~= Seq::<TokenRow>::empty());
        reveal(Seq::filter);
    }
    while i < v.len()
        invariant
            i <= v@.len(),
            v@ == old(v)@,
            acc@ == old(v)@.subrange(0, i as int).filter(pred),
        decreases v@.len() - i,
    {
        proof {
            assert(old(v)@.subrange(0, i + 1) =~= old(v)@.subrange(0, i as int).push(old(v)@[i as int]));
            crate::store::lemma_filter_push(old(v)@.subrange(0, i as int), old(v)@[i as int], pred);
        }
        if v[i].user != uid {
            acc.push(v[i].clone());
        }
        i = i + 1;
    }
    proof {
        assert(old(v)@.subrange(0, old(v)@.len() as int) =~= old(v)@);
    }
    *v = acc;
}

/// Removes every pending-email row of one user.
#[verifier::loop_isolation(false)]
fn retain_newemails_not_of(v: &mut Vec<NewEmailRow>, uid: UserId)
    ensures
        final(v)@ == old(v)@.filter(|t: NewEmailRow| t.user.as_int() != uid.as_int()),
{
    let ghost pred = |t: NewEmailRow| t.user.as_int() != uid.as_int();
    let mut acc: Vec<NewEmailRow> = Vec::new();
    let mut i: usize = 0;
    proof {
        assert(old(v)@.subrange(0, 0) =~= Seq::<NewEmailRow>::empty());
        reveal(Seq::filter);
    }
    while i < v.len()
        invariant
            i <= v@.len(),
            v@ == old(v)@,
            acc@ == old(v)@.subrange(0, i as int).filter(pred),
        decreases v@.len() - i,
    {
        proof {
            assert(old(v)@.subrange(0, i + 1) =~= old(v)@.subrange(0, i as int).push(old(v)@[i as int]));
            crate::store::lemma_filter_push(old(v)@.subrange(0, i as int), old(v)@[i as int], pred);
        }
        if v[i].user != uid {
            acc.push(v[i].clone());
        }
        i = i + 1;
    }
    proof {
        assert(old(v)@.subrange(0, old(v)@.len() as int) =~= old(v)@);
    }
    *v = acc;
}

/// Removes every pending-reset row of one user.
#[verifier::loop_isolation(false)]
fn retain_newpasswords_not_of(v: &mut Vec<NewPasswordRow>, uid: UserId)
    ensures
        final(v)@ == old(v)@.filter(|t: NewPasswordRow| t.user.as_int() != uid.as_int()),
{
    let ghost pred = |t: NewPasswordRow| t.user.as_int() != uid.as_int();
    let mut acc: Vec<NewPasswordRow> = Vec::new();
    let mut i: usize = 0;
    proof {
        assert(old(v)@.subrange(0, 0) =~= Seq::<NewPasswordRow>::empty());
        reveal(Seq::filter);
    }
    while i < v.len()
        invariant
            i <= v@.len(),
            v@ == old(v)@,
            acc@ == old(v)@.subrange(0, i as int).filter(pred),
        decreases v@.len() - i,
    {
        proof {
            assert(old(v)@.subrange(0, i + 1) =~= old(v)@.subrange(0, i as int).push(old(v)@[i as int]));
            crate::store::lemma_filter_push(old(v)@.subrange(0, i as int), old(v)@[i as int], pred);
        }
        if v[i].user != uid {
            acc.push(v[i].clone());
        }
        i = i + 1;
    }
    proof {
        assert(old(v)@.subrange(0, old(v)@.len() as int) =~= old(v)@);
    }
    *v = acc;
}

/// Removes every user row with this id (at most one, in a well-formed
/// store).
#[verifier::loop_isolation(false)]
fn retain_users_not(v: &mut Vec<User>, uid: UserId)
    ensures
        final(v)@ == old(v)@.filter(|u: User| u.id.as_int() != uid.as_int()),
{
    let ghost pred = |u: User| u.id.as_int() != uid.as_int();
    let mut acc: Vec<User> = Vec::new();
    let mut i: usize = 0;
    proof {
        assert(old(v)@.subrange(0, 0) =~= Seq::<User>::empty());
        reveal(Seq::filter);
    }
    while i < v.len()
        invariant
            i <= v@.len(),
            v@ == old(v)@,
            acc@ == old(v)@.subrange(0, i as int).filter(pred),
        decreases v@.len() - i,
    {
        proof {
            assert(old(v)@.subrange(0, i + 1) =~= old(v)@.subrange(0, i as int).push(old(v)@[i as int]));
            crate::store::lemma_filter_push(old(v)@.subrange(0, i as int), old(v)@[i as int], pred);
        }
        if v[i].id != uid {
            acc.push(v[i].clone());
        }
        i = i + 1;
    }
    proof {
        assert(old(v)@.subrange(0, old(v)@.len() as int) =~= old(v)@);
    }
    *v = acc;
}

/// The user rows that survive deleting user `uid`.
pub open spec fn users_without(s: Seq<User>, uid: UserId) -> Seq<User> {
    s.filter(|u: User| u.id.as_int() != uid.as_int())
}

/// The token rows that survive deleting user `uid`.
pub open spec fn tokens_without(s: Seq<TokenRow>, uid: UserId) -> Seq<TokenRow> {
    s.filter(|t: TokenRow| t.user.as_int() != uid.as_int())
}

/// The pending-email rows that survive deleting user `uid`.
pub open spec fn newemails_without(s: Seq<NewEmailRow>, uid: UserId) -> Seq<NewEmailRow> {
    s.filter(|t: NewEmailRow| t.user.as_int() != uid.as_int())
}

/// The pending-reset rows that survive deleting user `uid`.
pub open spec fn newpasswords_without(s: Seq<NewPasswordRow>, uid: UserId) -> Seq<NewPasswordRow> {
    s.filter(|t: NewPasswordRow| t.user.as_int() != uid.as_int())
}

/// Removes a user row and, in the same sweep, every token, pending email
/// change and pending password reset that belongs to it.  Invites the
/// user created are left, as they carry their own expiry.
pub fn delete_user(store: &mut Store, uid: UserId) -> (r: Result<(), Error>)
    requires
        old(store).wf(),
    ensures
        final(store).wf(),
        (r is Ok),
        final(store).users@ == users_without(old(store).users@, uid),
        final(store).tokens@ == tokens_without(old(store).tokens@, uid),
        final(store).newemails@ == newemails_without(old(store).newemails@, uid),
        final(store).newpasswords@ == newpasswords_without(old(store).newpasswords@, uid),
        final(store).invites@ == old(store).invites@,
        final(store).next_id == old(store).next_id,
        !(final(store).has_uid(uid.as_int())),
{
    retain_tokens_not_of(&mut store.tokens, uid);
    retain_newemails_not_of(&mut store.newemails, uid);
    retain_newpasswords_not_of(&mut store.newpasswords, uid);
    retain_users_not(&mut store.users, uid);
    proof {
        let prev = *old(store);
        lemma_filter_contained(prev.users@, |u: User| u.id.as_int() != uid.as_int());
        lemma_filter_pairwise(
            prev.users@,
            |u: User| u.id.as_int() != uid.as_int(),
            |a: User, b: User|
                a.id.as_int() != b.id.as_int() && lower_of(a.name@) != lower_of(b.name@) && a.uuid@
                    != b.uuid@,
        );
        lemma_filter_pairwise(
            prev.tokens@,
            |t: TokenRow| t.user.as_int() != uid.as_int(),
            |a: TokenRow, b: TokenRow| a.token@ != b.token@,
        );
        lemma_filter_pairwise(
            prev.newemails@,
            |t: NewEmailRow| t.user.as_int() != uid.as_int(),
            |a: NewEmailRow, b: NewEmailRow| !(a.user == b.user && a.token@ == b.token@),
        );
        lemma_filter_pairwise(
            prev.newpasswords@,
            |t: NewPasswordRow| t.user.as_int() != uid.as_int(),
            |a: NewPasswordRow, b: NewPasswordRow| !(a.user == b.user && a.token@ == b.token@),
        );
        assert forall|i: int| 0 <= i < store.users@.len() implies 0 <= (
        #[trigger] store.users@[i].id.as_int()) < store.next_id by {
            assert(prev.users@.contains(store.users@[i]));
            let j = choose|j: int| 0 <= j < prev.users@.len() && prev.users@[j] == store.users@[i];
            assert(0 <= prev.users@[j].id.as_int() < prev.next_id);
        }
        assert forall|i: int| 0 <= i < store.users@.len() implies (
        #[trigger] store.users@[i].id.as_int()) != uid.as_int() by {
            prev.users@.lemma_filter_pred(|u: User| u.id.as_int() != uid.as_int(), i);
        }
    }
    Ok(())
}


/// Records a pending email change for a user; the new address is not
/// applied until confirmed out of band.
pub fn add_newemail(store: &mut Store, user: UserId, token: String, email: String, now: i64) -> (r:
    Result<(), Error>)
    requires
        old(store).wf(),
    ensures
        final(store).wf(),
        (r is Ok) == !old(store).has_newemail(user.as_int(), token@),
        r is Ok ==> final(store).newemails@ == old(store).newemails@.push(
            NewEmailRow { user, email, token, tokendate: now },
        ) && final(store).users@ == old(store).users@ && final(store).tokens@ == old(store).tokens@
            && final(store).newpasswords@ == old(store).newpasswords@ && final(store).invites@
            == old(store).invites@ && final(store).next_id == old(store).next_id,
        r is Err ==> same_store(*final(store), *old(store)) && (r matches Err(e) && e
            == Error::Conflict),
{
    match store.find_newemail_idx(user, &token) {
        Some(_) => Err(Error::Conflict),
        None => {
            let row = NewEmailRow { user, email, token, tokendate: now };
            let ghost grow = row;
            store.newemails.push(row);
            proof {
                let rows = store.newemails@;
                let n = rows.len() - 1;
                assert forall|i: int, j: int| 0 <= i < j < rows.len() implies !((
                #[trigger] rows[i]).user == (#[trigger] rows[j]).user && rows[i].token@
                    == rows[j].token@) by {
                    if j < n {
                        assert(!(old(store).newemails@[i].user == old(store).newemails@[j].user
                            && old(store).newemails@[i].token@ == old(store).newemails@[j].token@));
                    } else {
                        assert(rows[j] == grow);
                        assert(!(old(store).newemails@[i].user.as_int() == grow.user.as_int()
                            && old(store).newemails@[i].token@ == grow.token@));
                    }
                }
            }
            Ok(())
        },
    }
}

/// Reads a pending email change: the proposed address and when the token
/// was issued.
pub fn read_newemail(store: &Store, user: UserId, token: &String) -> (r: Result<
    (String, i64),
    Error,
>)
    ensures
        (r is Ok) == store.has_newemail(user.as_int(), token@),
        match r {
            Ok(p) => exists|i: int|
                0 <= i < store.newemails@.len() && (#[trigger] store.newemails@[i]).user.as_int()
                    == user.as_int() && store.newemails@[i].token@ == token@
                    && store.newemails@[i].email@ == p.0@ && store.newemails@[i].tokendate == p.1,
            Err(e) => e == Error::NotFound,
        },
{
    match store.find_newemail_idx(user, token) {
        Some(i) => Ok((store.newemails[i].email.clone(), store.newemails[i].tokendate)),
        None => Err(Error::NotFound),
    }
}

/// Deletes a pending email change; deleting a missing one is a no-op.
pub fn remove_newemail(store: &mut Store, user: UserId, token: &String) -> (r: Result<(), Error>)
    requires
        old(store).wf(),
    ensures
        final(store).wf(),
        (r is Ok),
        !(final(store).has_newemail(user.as_int(), token@)),
        final(store).users@ == old(store).users@,
        final(store).tokens@ == old(store).tokens@,
        final(store).newpasswords@ == old(store).newpasswords@,
        final(store).invites@ == old(store).invites@,
        final(store).next_id == old(store).next_id,
        !old(store).has_newemail(user.as_int(), token@) ==> final(store).newemails@ == old(
            store,
        ).newemails@,
        old(store).has_newemail(user.as_int(), token@) ==> exists|i: int|
            0 <= i < old(store).newemails@.len() && (#[trigger] old(
                store,
            ).newemails@[i]).user.as_int() == user.as_int() && old(store).newemails@[i].token@
                == token@ && final(store).newemails@ == old(store).newemails@.remove(i),
{
    match store.find_newemail_idx(user, token) {
        None => Ok(()),
        Some(i) => {
            let ghost prev = store.newemails@;
            store.newemails.remove(i);
            proof {
                lemma_remove_pairwise(
                    prev,
                    i as int,
                    |a: NewEmailRow, b: NewEmailRow| !(a.user == b.user && a.token@ == b.token@),
                );
                assert forall|k: int| 0 <= k < store.newemails@.len() implies !((
                #[trigger] store.newemails@[k]).user.as_int() == user.as_int()
                    && store.newemails@[k].token@ == token@) by {
                    let k2 = if k < i as int {
                        k
                    } else {
                        k + 1
                    };
                    assert(store.newemails@[k] == prev[k2]);
                    if k2 != i as int {
                        assert(!(prev[k2].user == prev[i as int].user && prev[k2].token@
                            == prev[i as int].token@));
                    }
                }
            }
            Ok(())
        },
    }
}

/// Records a pending password reset for a user.
pub fn add_newpassword(store: &mut Store, user: UserId, token: String, now: i64) -> (r: Result<
    (),
    Error,
>)
    requires
        old(store).wf(),
    ensures
        final(store).wf(),
        (r is Ok) == !old(store).has_newpassword(user.as_int(), token@),
        r is Ok ==> final(store).newpasswords@ == old(store).newpasswords@.push(
            NewPasswordRow { user, token, tokendate: now },
        ) && final(store).users@ == old(store).users@ && final(store).tokens@ == old(store).tokens@
            && final(store).newemails@ == old(store).newemails@ && final(store).invites@ == old(
            store,
        ).invites@ && final(store).next_id == old(store).next_id,
        r is Err ==> same_store(*final(store), *old(store)) && (r matches Err(e) && e
            == Error::Conflict),
{
    match store.find_newpassword_idx(user, &token) {
        Some(_) => Err(Error::Conflict),
        None => {
            let row = NewPasswordRow { user, token, tokendate: now };
            let ghost grow = row;
            store.newpasswords.push(row);
            proof {
                let rows = store.newpasswords@;
                let n = rows.len() - 1;
                assert forall|i: int, j: int| 0 <= i < j < rows.len() implies !((
                #[trigger] rows[i]).user == (#[trigger] rows[j]).user && rows[i].token@
                    == rows[j].token@) by {
                    if j < n {
                        assert(!(old(store).newpasswords@[i].user == old(
                            store,
                        ).newpasswords@[j].user && old(store).newpasswords@[i].token@ == old(
                            store,
                        ).newpasswords@[j].token@));
                    } else {
                        assert(rows[j] == grow);
                        assert(!(old(store).newpasswords@[i].user.as_int() == grow.user.as_int()
                            && old(store).newpasswords@[i].token@ == grow.token@));
                    }
                }
            }
            Ok(())
        },
    }
}

/// Reads when a pending password reset was issued.
pub fn read_newpassword(store: &Store, user: UserId, token: &String) -> (r: Result<i64, Error>)
    ensures
        (r is Ok) == store.has_newpassword(user.as_int(), token@),
        match r {
            Ok(d) => exists|i: int|
                0 <= i < store.newpasswords@.len() && (#[trigger] store.newpasswords@[i]).user.as_int()
                    == user.as_int() && store.newpasswords@[i].token@ == token@
                    && store.newpasswords@[i].tokendate == d,
            Err(e) => e == Error::NotFound,
        },
{
    match store.find_newpassword_idx(user, token) {
        Some(i) => Ok(store.newpasswords[i].tokendate),
        None => Err(Error::NotFound),
    }
}

/// Deletes a pending password reset; deleting a missing one is a no-op.
pub fn remove_newpassword(store: &mut Store, user: UserId, token: &String) -> (r: Result<
    (),
    Error,
>)
    requires
        old(store).wf(),
    ensures
        final(store).wf(),
        (r is Ok),
        !(final(store).has_newpassword(user.as_int(), token@)),
        final(store).users@ == old(store).users@,
        final(store).tokens@ == old(store).tokens@,
        final(store).newemails@ == old(store).newemails@,
        final(store).invites@ == old(store).invites@,
        final(store).next_id == old(store).next_id,
        !old(store).has_newpassword(user.as_int(), token@) ==> final(store).newpasswords@ == old(
            store,
        ).newpasswords@,
        old(store).has_newpassword(user.as_int(), token@) ==> exists|i: int|
            0 <= i < old(store).newpasswords@.len() && (#[trigger] old(
                store,
            ).newpasswords@[i]).user.as_int() == user.as_int() && old(store).newpasswords@[i].token@
                == token@ && final(store).newpasswords@ == old(store).newpasswords@.remove(i),
{
    match store.find_newpassword_idx(user, token) {
        None => Ok(()),
        Some(i) => {
            let ghost prev = store.newpasswords@;
            store.newpasswords.remove(i);
            proof {
                lemma_remove_pairwise(
                    prev,
                    i as int,
                    |a: NewPasswordRow, b: NewPasswordRow| !(a.user == b.user && a.token@
                        == b.token@),
                );
                assert forall|k: int| 0 <= k < store.newpasswords@.len() implies !((
                #[trigger] store.newpasswords@[k]).user.as_int() == user.as_int()
                    && store.newpasswords@[k].token@ == token@) by {
                    let k2 = if k < i as int {
                        k
                    } else {
                        k + 1
                    };
                    assert(store.newpasswords@[k] == prev[k2]);
                    if k2 != i as int {
                        assert(!(prev[k2].user == prev[i as int].user && prev[k2].token@
                            == prev[i as int].token@));
                    }
                }
            }
            Ok(())
        },
    }
}


/// Records a single-use invitation.
pub fn add_userinvite(
    store: &mut Store,
    token: String,
    email: Option<String>,
    creator: UserId,
    data: Option<String>,
    now: i64,
) -> (r: Result<(), Error>)
    requires
        old(store).wf(),
    ensures
        final(store).wf(),
        (r is Ok) == !old(store).has_invite(token@),
        r is Ok ==> final(store).invites@ == old(store).invites@.push(
            InviteRow { email, token, tokendate: now, creator, data },
        ) && final(store).users@ == old(store).users@ && final(store).tokens@ == old(store).tokens@
            && final(store).newemails@ == old(store).newemails@ && final(store).newpasswords@
            == old(store).newpasswords@ && final(store).next_id == old(store).next_id,
        r is Err ==> same_store(*final(store), *old(store)) && (r matches Err(e) && e
            == Error::Conflict),
{
    match store.find_invite_idx(&token) {
        Some(_) => Err(Error::Conflict),
        None => {
            let row = InviteRow { email, token, tokendate: now, creator, data };
            let ghost grow = row;
            store.invites.push(row);
            proof {
                let rows = store.invites@;
                let n = rows.len() - 1;
                assert forall|i: int, j: int| 0 <= i < j < rows.len() implies (
                #[trigger] rows[i].token@) != (#[trigger] rows[j].token@) by {
                    if j < n {
                        assert(old(store).invites@[i].token@ != old(store).invites@[j].token@);
                    } else {
                        assert(rows[j] == grow);
                        assert(old(store).invites@[i].token@ != grow.token@);
                    }
                }
            }
            Ok(())
        },
    }
}

/// Deletes an invitation; deleting a missing one is a no-op.
pub fn remove_userinvite(store: &mut Store, token: &String) -> (r: Result<(), Error>)
    requires
        old(store).wf(),
    ensures
        final(store).wf(),
        (r is Ok),
        !(final(store).has_invite(token@)),
        final(store).users@ == old(store).users@,
        final(store).tokens@ == old(store).tokens@,
        final(store).newemails@ == old(store).newemails@,
        final(store).newpasswords@ == old(store).newpasswords@,
        final(store).next_id == old(store).next_id,
        !old(store).has_invite(token@) ==> final(store).invites@ == old(store).invites@,
        old(store).has_invite(token@) ==> exists|i: int|
            0 <= i < old(store).invites@.len() && (#[trigger] old(store).invites@[i].token@)
                == token@ && final(store).invites@ == old(store).invites@.remove(i),
{
    match store.find_invite_idx(token) {
        None => Ok(()),
        Some(i) => {
            let ghost prev = store.invites@;
            store.invites.remove(i);
            proof {
                lemma_remove_pairwise(
                    prev,
                    i as int,
                    |a: InviteRow, b: InviteRow| a.token@ != b.token@,
                );
                assert forall|k: int| 0 <= k < store.invites@.len() implies (
                #[trigger] store.invites@[k].token@) != token@ by {
                    let k2 = if k < i as int {
                        k
                    } else {
                        k + 1
                    };
                    assert(store.invites@[k] == prev[k2]);
                    if k2 != i as int {
                        assert(prev[k2].token@ != prev[i as int].token@);
                    }
                }
            }
            Ok(())
        },
    }
}

/// Reads an invitation by token, rebuilding the link a mail would carry.
pub fn read_userinvite(store: &Store, mainsite: &str, token: &String) -> (r: Result<
    Option<UserInvite>,
    Error,
>)
    ensures
        (r matches Ok(o) && o is Some) == store.has_invite(token@),
        (r is Ok),
        match r {
            Ok(o) => match o {
                Some(inv) => inv.token@ == token@ && inv.url@ == mainsite@ + "/invite/"@ + token@
                    && exists|i: int|
                    0 <= i < store.invites@.len() && (#[trigger] store.invites@[i].token@)
                        == token@ && store.invites@[i].email.deep_view()
                        == inv.email.deep_view() && store.invites@[i].data.deep_view()
                        == inv.data.deep_view() && store.invites@[i].creator == inv.creator,
                None => true,
            },
            Err(e) => false,
        },
{
    match store.find_invite_idx(token) {
        None => Ok(None),
        Some(i) => {
            let row = &store.invites[i];
            let url = String::from_str(mainsite).concat("/invite/").concat(token.as_str());
            Ok(
                Some(
                    UserInvite {
                        email: row.email.clone(),
                        token: token.clone(),
                        url,
                        data: row.data.clone(),
                        creator: row.creator,
                    },
                ),
            )
        },
    }
}

/// Verifies the password, then records a pending email change under a
/// fresh token; returns the (lowercased) account name and the token, for
/// the confirmation mail.
pub fn change_email(store: &mut Store, uid: UserId, cp: ChangeEmail, token: String, now: i64) -> (r:
    Result<(String, String), Error>)
    requires
        old(store).wf(),
    ensures
        final(store).wf(),
        (r matches Err(e) && e == Error::NotFound) <==> !old(store).has_uid(uid.as_int()),
        (r matches Err(e) && e == Error::InvalidCredentials) <==> (exists|i: int|
            0 <= i < old(store).users@.len() && (#[trigger] old(store).users@[i]).id == uid && (
            old(store).users@[i].registration_key is Some || !pwd_matches(
                old(store).users@[i],
                cp.pwd@,
            ))),
        r is Err ==> same_store(*final(store), *old(store)),
        r matches Err(e) ==> e == Error::NotFound || e == Error::InvalidCredentials || e
            == Error::Conflict,
        r is Ok <==> (exists|i: int|
            0 <= i < old(store).users@.len() && (#[trigger] old(store).users@[i]).id == uid && old(
                store,
            ).users@[i].registration_key is None && pwd_matches(old(store).users@[i], cp.pwd@))
            && !old(store).has_newemail(uid.as_int(), token@),
        r matches Ok(p) ==> ({
            &&& p.1@ == token@
            &&& final(store).newemails@ == old(store).newemails@.push(
                NewEmailRow { user: uid, email: cp.email, token, tokendate: now },
            )
            &&& final(store).users@ == old(store).users@
            &&& final(store).tokens@ == old(store).tokens@
            &&& final(store).newpasswords@ == old(store).newpasswords@
            &&& final(store).invites@ == old(store).invites@
            &&& final(store).next_id == old(store).next_id
            &&& exists|i: int|
                0 <= i < old(store).users@.len() && (#[trigger] old(store).users@[i]).id == uid
                    && p.0@ == lower_of(old(store).users@[i].name@)
        }),
{
    let idx = match store.find_user_idx_by_id(uid) {
        None => {
            return Err(Error::NotFound);
        },
        Some(i) => i,
    };
    if store.users[idx].registration_key.is_some() {
        return Err(Error::InvalidCredentials);
    }
    if !verify_password(&store.users[idx], cp.pwd.as_str()) {
        return Err(Error::InvalidCredentials);
    }
    let name = lowercase(store.users[idx].name.as_str());
    let t2 = token.clone();
    add_newemail(store, uid, token, cp.email, now)?;
    Ok((name, t2))
}


/// Grace period, in milliseconds, during which a superseded token keeps
/// working after a rotation marked it.
pub const REGEN_MS: i64 = 10 * 1000;

/// Inserts a fresh token row for a user: `prevtoken` is `None` for a
/// brand-new login and `Some` for a rotation.
pub fn add_token(
    store: &mut Store,
    user: UserId,
    token: String,
    prevtoken: Option<String>,
    toktype: Option<String>,
    now: i64,
) -> (r: Result<(), Error>)
    requires
        old(store).wf(),
    ensures
        final(store).wf(),
        (r is Ok) == !old(store).has_token(token@),
        r is Ok ==> ({
            &&& final(store).tokens@ == old(store).tokens@.push(
                TokenRow { user, token, tokendate: now, regendate: None, prevtoken, toktype },
            )
            &&& final(store).users@ == old(store).users@
            &&& final(store).newemails@ == old(store).newemails@
            &&& final(store).newpasswords@ == old(store).newpasswords@
            &&& final(store).invites@ == old(store).invites@
            &&& final(store).next_id == old(store).next_id
        }),
        r is Err ==> same_store(*final(store), *old(store)) && (r matches Err(e) && e
            == Error::Conflict),
{
    match store.find_token_idx(&token) {
        Some(_) => Err(Error::Conflict),
        None => {
            let row = TokenRow { user, token, tokendate: now, regendate: None, prevtoken, toktype };
            let ghost grow = row;
            store.tokens.push(row);
            proof {
                let rows = store.tokens@;
                let n = rows.len() - 1;
                assert forall|i: int, j: int| 0 <= i < j < rows.len() implies (
                #[trigger] rows[i].token@) != (#[trigger] rows[j].token@) by {
                    if j < n {
                        assert(old(store).tokens@[i].token@ != old(store).tokens@[j].token@);
                    } else {
                        assert(rows[j] == grow);
                        assert(old(store).tokens@[i].token@ != grow.token@);
                    }
                }
            }
            Ok(())
        },
    }
}

/// The same row with its rotation mark set to `now`.
pub open spec fn marked_row(t: TokenRow, now: i64) -> TokenRow {
    TokenRow {
        user: t.user,
        token: t.token,
        tokendate: t.tokendate,
        regendate: Some(now),
        prevtoken: t.prevtoken,
        toktype: t.toktype,
    }
}

/// Sets the rotation mark (`regendate`) of a token row to `now`, flagging
/// it as superseded without deleting it.  `Ok(false)` means no such row.
pub fn mark_prevtoken(store: &mut Store, prevtoken: &String, now: i64) -> (r: Result<bool, Error>)
    requires
        old(store).wf(),
    ensures
        final(store).wf(),
        (r is Ok),
        final(store).users@ == old(store).users@,
        final(store).newemails@ == old(store).newemails@,
        final(store).newpasswords@ == old(store).newpasswords@,
        final(store).invites@ == old(store).invites@,
        final(store).next_id == old(store).next_id,
        (r matches Ok(b) && b) == old(store).has_token(prevtoken@),
        !old(store).has_token(prevtoken@) ==> final(store).tokens@ == old(store).tokens@,
        old(store).has_token(prevtoken@) ==> exists|i: int|
            0 <= i < old(store).tokens@.len() && (#[trigger] old(store).tokens@[i].token@)
                == prevtoken@ && final(store).tokens@ == old(store).tokens@.update(
                i,
                marked_row(old(store).tokens@[i], now),
            ),
{
    match store.find_token_idx(prevtoken) {
        None => Ok(false),
        Some(i) => {
            let r = &store.tokens[i];
            let newr = TokenRow {
                user: r.user,
                token: r.token.clone(),
                tokendate: r.tokendate,
                regendate: Some(now),
                prevtoken: r.prevtoken.clone(),
                toktype: r.toktype.clone(),
            };
            let ghost prev = store.tokens@;
            store.tokens.set(i, newr);
            proof {
                let rows = store.tokens@;
                assert forall|a: int, b: int| 0 <= a < b < rows.len() implies (
                #[trigger] rows[a].token@) != (#[trigger] rows[b].token@) by {
                    assert(prev[a].token@ != prev[b].token@);
                }
                assert(store.tokens@ =~= prev.update(i as int, marked_row(prev[i as int], now)));
            }
            Ok(true)
        },
    }
}

/// Whether a user may act on a token issued at `tokendate`: the account
/// is active and the token is inside the configured window, if any.
pub open spec fn token_ok(u: User, tokendate: i64, exp: Option<i64>, now: i64) -> bool {
    &&& u.active
    &&& match exp {
        Some(w) => !crate::util::expired(w as int, tokendate as int, now as int),
        None => true,
    }
}

/// Rejects a deactivated account or an expired token.
fn check_user(user: &User, tokendate: i64, token_expiration_ms: Option<i64>, now: i64) -> (r:
    Result<(), Error>)
    ensures
        (r is Ok) == token_ok(*user, tokendate, token_expiration_ms, now),
        !user.active ==> (r matches Err(e) && e == Error::AccountDeactivated),
        user.active && !(r is Ok) ==> (r matches Err(e) && e == Error::TokenExpired),
{
    if !user.active {
        Err(Error::AccountDeactivated)
    } else {
        match token_expiration_ms {
            Some(texp) => {
                if crate::util::token_expired_at(texp, tokendate, now) {
                    Err(Error::TokenExpired)
                } else {
                    Ok(())
                }
            },
            None => Ok(()),
        }
    }
}

/// The bookkeeping fields of a token row.
struct TokenInfo {
    tokendate: i64,
    regendate: Option<i64>,
    prevtoken: Option<String>,
}

/// Whether the store can join `token` to an existing user row.
pub open spec fn token_joins(s: Store, token: Seq<char>, i: int, j: int) -> bool {
    &&& 0 <= i < s.tokens@.len()
    &&& s.tokens@[i].token@ == token
    &&& 0 <= j < s.users@.len()
    &&& s.users@[j].id == s.tokens@[i].user
}

/// Whether `token` resolves to some active, unexpired user.
pub open spec fn resolves_ok(s: Store, token: Seq<char>, exp: Option<i64>, now: i64) -> bool {
    exists|i: int, j: int|
        #![trigger s.tokens@[i], s.users@[j]]
        token_joins(s, token, i, j) && token_ok(s.users@[j], s.tokens@[i].tokendate, exp, now)
}

/// Joins a token to its user row.
fn read_user_by_token(store: &Store, token: &String) -> (r: Result<(User, TokenInfo), Error>)
    requires
        store.wf(),
    ensures
        (r is Ok) == exists|i: int, j: int|
            #![trigger store.tokens@[i], store.users@[j]]
            token_joins(*store, token@, i, j),
        match r {
            Ok(p) => exists|i: int, j: int|
                #![trigger store.tokens@[i], store.users@[j]]
                token_joins(*store, token@, i, j) && p.0 == store.users@[j] && p.1.tokendate
                    == store.tokens@[i].tokendate && p.1.regendate == store.tokens@[i].regendate
                    && p.1.prevtoken.deep_view() == store.tokens@[i].prevtoken.deep_view(),
            Err(e) => e == Error::NotFound,
        },
{
    let ti = match store.find_token_idx(token) {
        None => {
            return Err(Error::NotFound);
        },
        Some(i) => i,
    };
    let uj = match store.find_user_idx_by_id(store.tokens[ti].user) {
        None => {
            proof {
                assert forall|i: int, j: int|
                    #![trigger store.tokens@[i], store.users@[j]]
                    !token_joins(*store, token@, i, j) by {
                    if 0 <= i < store.tokens@.len() && 0 <= j < store.users@.len()
                        && store.tokens@[i].token@ == token@ {
                        if i < ti as int {
                            assert(store.tokens@[i].token@ != store.tokens@[ti as int].token@);
                        } else if i > ti as int {
                            assert(store.tokens@[ti as int].token@ != store.tokens@[i].token@);
                        }
                        assert(store.users@[j].id.as_int() != store.tokens@[
                            ti as int
                        ].user.as_int());
                    }
                }
            }
            return Err(Error::NotFound);
        },
        Some(j) => j,
    };
    let row = &store.tokens[ti];
    let info = TokenInfo {
        tokendate: row.tokendate,
        regendate: row.regendate,
        prevtoken: row.prevtoken.clone(),
    };
    let u = store.users[uj].clone();
    proof {
        assert(token_joins(*store, token@, ti as int, uj as int));
    }
    Ok((u, info))
}


/// Whether `chain` is a predecessor walk through `tokens` starting at
/// `start`: each entry but the last names a row whose `prevtoken` is the
/// next entry.
pub open spec fn chain_valid(tokens: Seq<TokenRow>, chain: Seq<Seq<char>>, start: Seq<char>) -> bool {
    &&& chain.len() >= 1
    &&& chain[0] == start
    &&& forall|k: int|
        0 <= k < chain.len() - 1 ==> exists|i: int|
            0 <= i < tokens.len() && (#[trigger] tokens[i]).token@ == #[trigger] chain[k]
                && tokens[i].prevtoken.deep_view() == Some(chain[k + 1])
}

/// Whether the chain can go no further in `tokens`: its last entry
/// either names no row or a row without a predecessor link, or the walk
/// hit its defensive bound (possible only on a cyclic chain, since the
/// chain is then longer than the row count).
pub open spec fn chain_closed(tokens: Seq<TokenRow>, chain: Seq<Seq<char>>) -> bool {
    ||| (forall|i: int|
        0 <= i < tokens.len() && (#[trigger] tokens[i].token@) == chain.last()
            ==> tokens[i].prevtoken is None)
    ||| chain.len() > tokens.len()
}

/// Whether the chain sweep deletes this row: the row is a chain member,
/// or descends from one and is not the token being kept.
pub open spec fn chain_removes(chain: Seq<Seq<char>>, t: TokenRow, keep: Seq<char>) -> bool {
    chain.contains(t.token@) || (match t.prevtoken {
        Some(p) => chain.contains(p@) && t.token@ != keep,
        None => false,
    })
}

/// Whether `s` holds this token string.
fn contains_str(v: &Vec<String>, s: &String) -> (r: bool)
    ensures
        r == v@.map_values(|x: String| x@).contains(s@),
{
    let ghost views = v@.map_values(|x: String| x@);
    let mut i: usize = 0;
    while i < v.len()
        invariant
            i <= v@.len(),
            views == v@.map_values(|x: String| x@),
            forall|j: int| 0 <= j < i ==> (#[trigger] views[j]) != s@,
        decreases v@.len() - i,
    {
        if v[i] == *s {
            proof {
                assert(views[i as int] == s@);
            }
            return true;
        }
        i = i + 1;
    }
    false
}

/// Walks the predecessor chain from `token` and deletes every chain
/// member together with its other descendants, sparing `keeptoken`.  The
/// walk is bounded by the row count, so even a corrupted, cyclic chain
/// cannot make it spin.
#[verifier::loop_isolation(false)]
pub fn remove_token_chain(store: &mut Store, token: &String, keeptoken: &String) -> (r: Result<
    (),
    Error,
>)
    requires
        old(store).wf(),
    ensures
        final(store).wf(),
        (r is Ok),
        final(store).users@ == old(store).users@,
        final(store).newemails@ == old(store).newemails@,
        final(store).newpasswords@ == old(store).newpasswords@,
        final(store).invites@ == old(store).invites@,
        final(store).next_id == old(store).next_id,
        exists|chain: Seq<Seq<char>>|
            (#[trigger] chain_valid(old(store).tokens@, chain, token@)) && chain_closed(
                old(store).tokens@,
                chain,
            ) && final(store).tokens@ == old(store).tokens@.filter(
                (|t: TokenRow| !chain_removes(chain, t, keeptoken@)),
            ),
{
    let mut chain: Vec<String> = Vec::new();
    chain.push(token.clone());
    let mut cur: String = token.clone();
    let mut steps: usize = 0;
    let bound = store.tokens.len();
    proof {
        assert(chain@.map_values(|x: String| x@) =~= seq![token@]);
    }
    while steps < bound
        invariant
            chain_valid(store.tokens@, chain@.map_values(|x: String| x@), token@),
            chain@.len() >= 1,
            chain@.len() == steps + 1,
            cur@ == chain@.map_values(|x: String| x@).last(),
            steps <= bound,
        decreases bound - steps,
    {
        let ghost prevchain = chain@.map_values(|x: String| x@);
        let idx = match store.find_token_idx(&cur) {
            Some(i) => i,
            None => {
                proof {
                    assert(chain_closed(store.tokens@, prevchain));
                }
                break ;
            },
        };
        let p = match &store.tokens[idx].prevtoken {
            Some(p) => p.clone(),
            None => {
                proof {
                    assert forall|k: int|
                        0 <= k < store.tokens@.len() && (#[trigger] store.tokens@[k].token@)
                            == prevchain.last() implies store.tokens@[k].prevtoken is None by {
                        if k < idx as int {
                            assert(store.tokens@[k].token@ != store.tokens@[idx as int].token@);
                        } else if (idx as int) < k {
                            assert(store.tokens@[idx as int].token@ != store.tokens@[k].token@);
                        }
                    }
                    assert(chain_closed(store.tokens@, prevchain));
                }
                break ;
            },
        };
        chain.push(p.clone());
        cur = p;
        steps = steps + 1;
        proof {
            let newchain = chain@.map_values(|x: String| x@);
            assert(newchain =~= prevchain.push(cur@));
            let n = newchain.len() - 1;
            assert forall|k: int| 0 <= k < newchain.len() - 1 implies exists|i: int|
                0 <= i < store.tokens@.len() && (#[trigger] store.tokens@[i]).token@
                    == #[trigger] newchain[k] && store.tokens@[i].prevtoken.deep_view() == Some(
                    newchain[k + 1],
                ) by {
                if k < n - 1 {
                    assert(exists|i: int|
                        0 <= i < store.tokens@.len() && (#[trigger] store.tokens@[i]).token@
                            == prevchain[k] && store.tokens@[i].prevtoken.deep_view() == Some(
                            prevchain[k + 1],
                        ));
                } else {
                    assert(store.tokens@[idx as int].token@ == newchain[k]
                        && store.tokens@[idx as int].prevtoken.deep_view() == Some(
                        newchain[k + 1],
                    ));
                }
            }
        }
    }
    let ghost chainv = chain@.map_values(|x: String| x@);
    proof {
        assert(chain_closed(store.tokens@, chainv));
    }
    let ghost pred = |t: TokenRow| !chain_removes(chainv, t, keeptoken@);
    let ghost prevtokens = store.tokens@;
    let mut acc: Vec<TokenRow> = Vec::new();
    let mut i: usize = 0;
    proof {
        assert(prevtokens.subrange(0, 0) =~= Seq::<TokenRow>::empty());
        reveal(Seq::filter);
    }
    while i < store.tokens.len()
        invariant
            i <= store.tokens@.len(),
            store.tokens@ == prevtokens,
            acc@ == prevtokens.subrange(0, i as int).filter(pred),
        decreases store.tokens@.len() - i,
    {
        proof {
            assert(prevtokens.subrange(0, i + 1) =~= prevtokens.subrange(0, i as int).push(
                prevtokens[i as int],
            ));
            crate::store::lemma_filter_push(
                prevtokens.subrange(0, i as int),
                prevtokens[i as int],
                pred,
            );
        }
        let row = &store.tokens[i];
        let in_chain = contains_str(&chain, &row.token);
        let desc = match &row.prevtoken {
            Some(p) => contains_str(&chain, p) && row.token != *keeptoken,
            None => false,
        };
        if !(in_chain || desc) {
            acc.push(store.tokens[i].clone());
        }
        i = i + 1;
    }
    proof {
        assert(prevtokens.subrange(0, prevtokens.len() as int) =~= prevtokens);
    }
    store.tokens = acc;
    proof {
        lemma_filter_pairwise(
            prevtokens,
            pred,
            |a: TokenRow, b: TokenRow| a.token@ != b.token@,
        );
        assert(chain_valid(old(store).tokens@, chainv, token@));
        assert(chain_closed(old(store).tokens@, chainv));
    }
    Ok(())
}


/// The same row with its predecessor link cleared.
pub open spec fn cleared_row(t: TokenRow) -> TokenRow {
    TokenRow {
        user: t.user,
        token: t.token,
        tokendate: t.tokendate,
        regendate: t.regendate,
        prevtoken: None,
        toktype: t.toktype,
    }
}

/// The store delta of one lazy chain collapse: some maximal predecessor
/// walk from `start` was removed (each member and its descendants, the
/// kept token spared), and the kept row, if it survived, may have had
/// its predecessor link cleared.
pub open spec fn chain_pruned(prev: Store, cur: Store, start: Seq<char>, keep: Seq<char>) -> bool {
    exists|chain: Seq<Seq<char>>|
        #![trigger chain_valid(prev.tokens@, chain, start)]
        {
            let mid = prev.tokens@.filter((|t: TokenRow| !chain_removes(chain, t, keep)));
            &&& chain_valid(prev.tokens@, chain, start)
            &&& chain_closed(prev.tokens@, chain)
            &&& ((cur.tokens@ == mid && !(cur.has_token(keep))) || exists|k: int|
                0 <= k < mid.len() && (#[trigger] mid[k]).token@ == keep && cur.tokens@
                    == mid.update(k, cleared_row(mid[k])))
            &&& (!chain.contains(keep) && prev.has_token(keep) ==> cur.has_token(keep))
        }
}

/// Two joins of the same token name the same rows, in a well-formed
/// store.
pub(crate) proof fn lemma_join_unique(s: Store, token: Seq<char>, i1: int, j1: int, i2: int, j2: int)
    requires
        s.wf(),
        token_joins(s, token, i1, j1),
        token_joins(s, token, i2, j2),
    ensures
        i1 == i2,
        j1 == j2,
{
    if i1 < i2 {
        assert(s.tokens@[i1].token@ != s.tokens@[i2].token@);
    } else if i2 < i1 {
        assert(s.tokens@[i2].token@ != s.tokens@[i1].token@);
    }
    if j1 < j2 {
        assert(s.users@[j1].id.as_int() != s.users@[j2].id.as_int());
    } else if j2 < j1 {
        assert(s.users@[j2].id.as_int() != s.users@[j1].id.as_int());
    }
}

/// Whether the presented token's predecessor carries a rotation mark old
/// enough (beyond the grace period) that the chain should be collapsed.
pub open spec fn prune_condition(s: Store, token: Seq<char>, now: i64) -> bool {
    exists|i: int, p: int|
        #![trigger s.tokens@[i], s.tokens@[p]]
        0 <= i < s.tokens@.len() && 0 <= p < s.tokens@.len() && s.tokens@[i].token@ == token
            && (match s.tokens@[i].prevtoken {
            Some(pt) => s.tokens@[p].token@ == pt@,
            None => false,
        }) && (match s.tokens@[p].regendate {
            Some(d) => d < now - REGEN_MS,
            None => false,
        })
}

/// Resolves a bearer token for an api call: joins it to its user, fails
/// on a deactivated account or an expired token, and opportunistically
/// collapses the predecessor chain once the grace period after a rotation
/// has passed.  The token itself is never refreshed here.
pub fn read_user_by_token_api(
    store: &mut Store,
    token: &String,
    token_expiration_ms: Option<i64>,
    regen_login_tokens: bool,
    now: i64,
) -> (r: Result<User, Error>)
    requires
        old(store).wf(),
    ensures
        final(store).wf(),
        (r is Ok) == resolves_ok(*old(store), token@, token_expiration_ms, now),
        final(store).users@ == old(store).users@,
        final(store).newemails@ == old(store).newemails@,
        final(store).newpasswords@ == old(store).newpasswords@,
        final(store).invites@ == old(store).invites@,
        final(store).next_id == old(store).next_id,
        match r {
            Ok(u) => exists|i: int, j: int|
                #![trigger old(store).tokens@[i], old(store).users@[j]]
                token_joins(*old(store), token@, i, j) && u == old(store).users@[j],
            Err(e) => same_store(*final(store), *old(store)) && ((e == Error::NotFound) == !(
            exists|i: int, j: int|
                #![trigger old(store).tokens@[i], old(store).users@[j]]
                token_joins(*old(store), token@, i, j))) && ((e == Error::AccountDeactivated)
                == exists|i: int, j: int|
                #![trigger old(store).tokens@[i], old(store).users@[j]]
                (token_joins(*old(store), token@, i, j) && !old(store).users@[j].active)) && ((e
                == Error::TokenExpired) == exists|i: int, j: int|
                #![trigger old(store).tokens@[i], old(store).users@[j]]
                (token_joins(*old(store), token@, i, j) && old(store).users@[j].active && (
                match token_expiration_ms {
                    Some(w) => crate::util::expired(
                        w as int,
                        old(store).tokens@[i].tokendate as int,
                        now as int,
                    ),
                    None => false,
                }))),
        },
        !(regen_login_tokens && prune_condition(*old(store), token@, now)) ==> final(store).tokens@
            == old(store).tokens@,
        r is Ok && regen_login_tokens && prune_condition(*old(store), token@, now) ==> ({
            &&& forall|t: Seq<char>|
                #[trigger] final(store).has_token(t) ==> old(store).has_token(t)
            &&& forall|i: int|
                0 <= i < old(store).tokens@.len() && (#[trigger] old(store).tokens@[i].token@)
                    == token@ ==> match old(store).tokens@[i].prevtoken {
                    Some(pt) => !final(store).has_token(pt@) && chain_pruned(
                        *old(store),
                        *final(store),
                        pt@,
                        token@,
                    ),
                    None => true,
                }
            &&& forall|k: int|
                0 <= k < final(store).tokens@.len() ==> exists|j: int|
                    0 <= j < old(store).tokens@.len() && ((#[trigger] final(store).tokens@[k])
                        == old(store).tokens@[j] || (final(store).tokens@[k] == cleared_row(
                        old(store).tokens@[j],
                    ) && old(store).tokens@[j].token@ == token@))
        }),
{
    let (user, info) = match read_user_by_token(store, token) {
        Ok(p) => p,
        Err(e) => {
            return Err(e);
        },
    };
    let ghost gi = choose|i: int, j: int|
        #![trigger old(store).tokens@[i], old(store).users@[j]]
        token_joins(*old(store), token@, i, j) && user == old(store).users@[j] && info.tokendate
            == old(store).tokens@[i].tokendate && info.regendate == old(store).tokens@[i].regendate
            && info.prevtoken.deep_view() == old(store).tokens@[i].prevtoken.deep_view();
    proof {
        assert forall|i: int, j: int|
            #![trigger old(store).tokens@[i], old(store).users@[j]]
            token_joins(*old(store), token@, i, j) implies old(store).users@[j] == user && old(
            store,
        ).tokens@[i].tokendate == info.tokendate by {
            lemma_join_unique(*old(store), token@, i, j, gi.0, gi.1);
        }
    }
    match check_user(&user, info.tokendate, token_expiration_ms, now) {
        Ok(()) => {},
        Err(e) => {
            return Err(e);
        },
    }
    if regen_login_tokens {
        let pt = match &info.prevtoken {
            Some(pt) => pt.clone(),
            None => {
                proof {
                    assert forall|i: int, p: int|
                        #![trigger old(store).tokens@[i], old(store).tokens@[p]]
                        !(0 <= i < old(store).tokens@.len() && 0 <= p < old(store).tokens@.len()
                            && old(store).tokens@[i].token@ == token@ && (match old(
                            store,
                        ).tokens@[i].prevtoken {
                            Some(q) => old(store).tokens@[p].token@ == q@,
                            None => false,
                        })) by {
                        if 0 <= i < old(store).tokens@.len() && old(store).tokens@[i].token@
                            == token@ {
                            lemma_join_unique(*old(store), token@, i, gi.1, gi.0, gi.1);
                        }
                    }
                }
                return Ok(user);
            },
        };
        let pidx = match store.find_token_idx(&pt) {
            Some(p) => p,
            None => {
                proof {
                    assert forall|i: int, p: int|
                        #![trigger old(store).tokens@[i], old(store).tokens@[p]]
                        !(0 <= i < old(store).tokens@.len() && 0 <= p < old(store).tokens@.len()
                            && old(store).tokens@[i].token@ == token@ && (match old(
                            store,
                        ).tokens@[i].prevtoken {
                            Some(q) => old(store).tokens@[p].token@ == q@,
                            None => false,
                        })) by {
                        if 0 <= i < old(store).tokens@.len() && old(store).tokens@[i].token@
                            == token@ && 0 <= p < old(store).tokens@.len() {
                            lemma_join_unique(*old(store), token@, i, gi.1, gi.0, gi.1);
                        }
                    }
                }
                return Ok(user);
            },
        };
        let fire = match store.tokens[pidx].regendate {
            Some(d) => (d as i128) < (now as i128) - (REGEN_MS as i128),
            None => false,
        };
        if fire {
            proof {
                assert(prune_condition(*old(store), token@, now));
            }
            let ghost mid0 = store.tokens@;
            match remove_token_chain(store, &pt, token) {
                Ok(()) => {},
                Err(e) => {
                    return Err(e);
                },
            }
            let ghost chain = choose|chain: Seq<Seq<char>>|
                (#[trigger] chain_valid(mid0, chain, pt@)) && chain_closed(mid0, chain)
                    && store.tokens@ == mid0.filter(
                    (|t: TokenRow| !chain_removes(chain, t, token@)),
                );
            proof {
                lemma_filter_contained(mid0, (|t: TokenRow| !chain_removes(chain, t, token@)));
                assert forall|k: int| 0 <= k < store.tokens@.len() implies (
                #[trigger] store.tokens@[k].token@) != pt@ by {
                    mid0.lemma_filter_pred((|t: TokenRow| !chain_removes(chain, t, token@)), k);
                    assert(chain.contains(pt@));
                }
            }
            let ghost mid1 = store.tokens@;
            match store.find_token_idx(token) {
                Some(ci) => {
                    let rowref = &store.tokens[ci];
                    let newr = TokenRow {
                        user: rowref.user,
                        token: rowref.token.clone(),
                        tokendate: rowref.tokendate,
                        regendate: rowref.regendate,
                        prevtoken: None,
                        toktype: rowref.toktype.clone(),
                    };
                    store.tokens.set(ci, newr);
                    proof {
                        assert(store.tokens@ =~= mid1.update(ci as int, cleared_row(
                            mid1[ci as int],
                        )));
                        assert forall|a: int, b: int| 0 <= a < b < store.tokens@.len() implies (
                        #[trigger] store.tokens@[a].token@) != (
                        #[trigger] store.tokens@[b].token@) by {
                            assert(mid1[a].token@ != mid1[b].token@);
                        }
                    }
                },
                None => {},
            }
            proof {
                let prev = *old(store);
                let pred = (|t: TokenRow| !chain_removes(chain, t, token@));
                let mid = prev.tokens@.filter(pred);
                assert(mid == mid1);
                assert(store.tokens@ == mid1 || exists|k: int|
                    0 <= k < mid1.len() && (#[trigger] mid1[k]).token@ == token@ && store.tokens@
                        == mid1.update(k, cleared_row(mid1[k])));
                assert(!chain.contains(token@) && prev.has_token(token@)
                    ==> store.has_token(token@)) by {
                    if !chain.contains(token@) && prev.has_token(token@) {
                        let kk = choose|kk: int|
                            0 <= kk < prev.tokens@.len() && (#[trigger] prev.tokens@[kk].token@)
                                == token@;
                        assert(!chain_removes(chain, prev.tokens@[kk], token@));
                        prev.tokens@.lemma_filter_contains(pred, kk);
                        assert(mid1.contains(prev.tokens@[kk]));
                        let pos = choose|pos: int|
                            0 <= pos < mid1.len() && mid1[pos] == prev.tokens@[kk];
                        assert(store.tokens@[pos].token@ == token@);
                    }
                }
                assert(chain_pruned(prev, *store, pt@, token@));
                assert forall|i: int|
                    0 <= i < prev.tokens@.len() && (#[trigger] prev.tokens@[i].token@)
                        == token@ implies match prev.tokens@[i].prevtoken {
                    Some(q) => chain_pruned(prev, *store, q@, token@),
                    None => true,
                } by {
                    lemma_join_unique(prev, token@, i, gi.1, gi.0, gi.1);
                    match prev.tokens@[i].prevtoken {
                        Some(q) => {
                            assert(q@ == pt@);
                        },
                        None => {},
                    }
                }
                assert forall|t: Seq<char>| #[trigger] store.has_token(t) implies prev.has_token(
                    t,
                ) by {
                    let k = choose|k: int|
                        0 <= k < store.tokens@.len() && (#[trigger] store.tokens@[k].token@) == t;
                    assert(mid1[k].token@ == t);
                    assert(mid0.contains(mid1[k]));
                    let j = choose|j: int| 0 <= j < mid0.len() && mid0[j] == mid1[k];
                    assert(prev.tokens@[j].token@ == t);
                }
                assert forall|i: int|
                    0 <= i < prev.tokens@.len() && (#[trigger] prev.tokens@[i].token@)
                        == token@ implies match prev.tokens@[i].prevtoken {
                    Some(q) => !store.has_token(q@),
                    None => true,
                } by {
                    lemma_join_unique(prev, token@, i, gi.1, gi.0, gi.1);
                    match prev.tokens@[i].prevtoken {
                        Some(q) => {
                            assert(q@ == pt@);
                            assert forall|k: int| 0 <= k < store.tokens@.len() implies (
                            #[trigger] store.tokens@[k].token@) != q@ by {
                                assert(mid1[k].token@ != pt@);
                            }
                        },
                        None => {},
                    }
                }
                assert forall|k: int| 0 <= k < store.tokens@.len() implies exists|j: int|
                    0 <= j < prev.tokens@.len() && ((#[trigger] store.tokens@[k])
                        == prev.tokens@[j] || (store.tokens@[k] == cleared_row(prev.tokens@[j])
                        && prev.tokens@[j].token@ == token@)) by {
                    assert(mid0.contains(mid1[k]));
                    let j = choose|j: int| 0 <= j < mid0.len() && mid0[j] == mid1[k];
                    if store.tokens@[k] == mid1[k] {
                        assert(store.tokens@[k] == prev.tokens@[j]);
                    } else {
                        assert(store.tokens@[k] == cleared_row(prev.tokens@[j]));
                    }
                }
            }
            return Ok(user);
        } else {
            proof {
                assert forall|i: int, p: int|
                    #![trigger old(store).tokens@[i], old(store).tokens@[p]]
                    !(0 <= i < old(store).tokens@.len() && 0 <= p < old(store).tokens@.len()
                        && old(store).tokens@[i].token@ == token@ && (match old(
                        store,
                    ).tokens@[i].prevtoken {
                        Some(q) => old(store).tokens@[p].token@ == q@,
                        None => false,
                    }) && (match old(store).tokens@[p].regendate {
                        Some(d) => d < now - REGEN_MS,
                        None => false,
                    })) by {
                    if 0 <= i < old(store).tokens@.len() && 0 <= p < old(store).tokens@.len()
                        && old(store).tokens@[i].token@ == token@ {
                        lemma_join_unique(*old(store), token@, i, gi.1, gi.0, gi.1);
                        if p < pidx as int {
                            assert(old(store).tokens@[p].token@ != old(store).tokens@[
                                pidx as int
                            ].token@);
                        } else if p > pidx as int {
                            assert(old(store).tokens@[pidx as int].token@ != old(store).tokens@[
                                p
                            ].token@);
                        }
                    }
                }
            }
        }
    }
    Ok(user)
}


/// Whether the row holding `token` is ripe for rotation: it was never
/// marked, or its mark is older than the grace period.
pub open spec fn rotation_due_at(s: Store, token: Seq<char>, now: i64) -> bool {
    exists|i: int|
        0 <= i < s.tokens@.len() && (#[trigger] s.tokens@[i].token@) == token && (match s.tokens@[i].regendate {
            Some(dt) => dt + REGEN_MS < now,
            None => true,
        })
}

/// The store delta of one rotation: the presented token's row is marked
/// at `now`, and a fresh row for `new_token` is appended whose
/// predecessor is the presented token.
pub open spec fn rotation_applied(
    prev: Store,
    cur: Store,
    token: Seq<char>,
    new_token: Seq<char>,
    now: i64,
) -> bool {
    exists|i: int|
        #![trigger prev.tokens@[i]]
        {
            let last = cur.tokens@.last();
            &&& 0 <= i < prev.tokens@.len()
            &&& prev.tokens@[i].token@ == token
            &&& cur.tokens@ == prev.tokens@.update(i, marked_row(prev.tokens@[i], now)).push(last)
            &&& last.token@ == new_token
            &&& last.user == prev.tokens@[i].user
            &&& last.tokendate == now
            &&& last.regendate is None
            &&& last.prevtoken.deep_view() == Some(token)
            &&& last.toktype is None
        }
}

/// Resolves a bearer token on a page load, where the caller will store a
/// refreshed token: after resolution, if rotation is enabled and the row
/// is ripe, the row is marked as superseded and a fresh successor row
/// for `new_token` is written, atomically from the caller's view.  The
/// rotated-out token keeps working for the grace period.
pub fn read_user_with_token_pageload(
    store: &mut Store,
    token: &String,
    regen_login_tokens: bool,
    token_expiration_ms: Option<i64>,
    now: i64,
    new_token: String,
) -> (r: Result<(User, Option<String>), Error>)
    requires
        old(store).wf(),
    ensures
        final(store).wf(),
        final(store).users@ == old(store).users@,
        final(store).newemails@ == old(store).newemails@,
        final(store).newpasswords@ == old(store).newpasswords@,
        final(store).invites@ == old(store).invites@,
        final(store).next_id == old(store).next_id,
        (r is Ok) == (resolves_ok(*old(store), token@, token_expiration_ms, now) && !(
        regen_login_tokens && rotation_due_at(*old(store), token@, now) && old(store).has_token(
            new_token@,
        ))),
        r is Err ==> same_store(*final(store), *old(store)),
        match r {
            Ok(p) => ({
                &&& exists|i: int, j: int|
                    #![trigger old(store).tokens@[i], old(store).users@[j]]
                    token_joins(*old(store), token@, i, j) && p.0 == old(store).users@[j]
                &&& (p.1 is Some) == (regen_login_tokens && rotation_due_at(
                    *old(store),
                    token@,
                    now,
                ))
                &&& match p.1 {
                    Some(nt) => nt@ == new_token@ && rotation_applied(
                        *old(store),
                        *final(store),
                        token@,
                        new_token@,
                        now,
                    ),
                    None => same_store(*final(store), *old(store)),
                }
            }),
            Err(e) => ({
                &&& ((e == Error::NotFound) == !(exists|i: int, j: int|
                    #![trigger old(store).tokens@[i], old(store).users@[j]]
                    token_joins(*old(store), token@, i, j)))
                &&& ((e == Error::AccountDeactivated) == exists|i: int, j: int|
                    #![trigger old(store).tokens@[i], old(store).users@[j]]
                    (token_joins(*old(store), token@, i, j) && !old(store).users@[j].active))
                &&& ((e == Error::TokenExpired) == exists|i: int, j: int|
                    #![trigger old(store).tokens@[i], old(store).users@[j]]
                    (token_joins(*old(store), token@, i, j) && old(store).users@[j].active && (
                    match token_expiration_ms {
                        Some(w) => crate::util::expired(
                            w as int,
                            old(store).tokens@[i].tokendate as int,
                            now as int,
                        ),
                        None => false,
                    })))
                &&& ((e == Error::Conflict) == (resolves_ok(
                    *old(store),
                    token@,
                    token_expiration_ms,
                    now,
                ) && regen_login_tokens && rotation_due_at(*old(store), token@, now) && old(
                    store,
                ).has_token(new_token@)))
            }),
        },
{
    let (user, info) = match read_user_by_token(store, token) {
        Ok(p) => p,
        Err(e) => {
            return Err(e);
        },
    };
    let ghost gi = choose|i: int, j: int|
        #![trigger old(store).tokens@[i], old(store).users@[j]]
        token_joins(*old(store), token@, i, j) && user == old(store).users@[j] && info.tokendate
            == old(store).tokens@[i].tokendate && info.regendate == old(store).tokens@[i].regendate
            && info.prevtoken.deep_view() == old(store).tokens@[i].prevtoken.deep_view();
    proof {
        assert forall|i: int, j: int|
            #![trigger old(store).tokens@[i], old(store).users@[j]]
            token_joins(*old(store), token@, i, j) implies old(store).users@[j] == user && old(
            store,
        ).tokens@[i].tokendate == info.tokendate && old(store).tokens@[i].regendate
            == info.regendate by {
            lemma_join_unique(*old(store), token@, i, j, gi.0, gi.1);
        }
        assert(rotation_due_at(*old(store), token@, now) == (match info.regendate {
            Some(dt) => dt + REGEN_MS < now,
            None => true,
        })) by {
            if rotation_due_at(*old(store), token@, now) {
                let i = choose|i: int|
                    0 <= i < old(store).tokens@.len() && (#[trigger] old(store).tokens@[i].token@)
                        == token@ && (match old(store).tokens@[i].regendate {
                        Some(dt) => dt + REGEN_MS < now,
                        None => true,
                    });
                lemma_join_unique(*old(store), token@, i, gi.1, gi.0, gi.1);
            } else {
                assert(old(store).tokens@[gi.0].token@ == token@);
            }
        }
    }
    match check_user(&user, info.tokendate, token_expiration_ms, now) {
        Ok(()) => {},
        Err(e) => {
            return Err(e);
        },
    }
    if regen_login_tokens {
        let due = match info.regendate {
            Some(dt) => (dt as i128) + (REGEN_MS as i128) < (now as i128),
            None => true,
        };
        if due {
            match store.find_token_idx(&new_token) {
                Some(_) => {
                    return Err(Error::Conflict);
                },
                None => {},
            }
            let marked = match mark_prevtoken(store, token, now) {
                Ok(b) => b,
                Err(e) => {
                    return Err(e);
                },
            };
            let ghost mid = *store;
            let nt2 = new_token.clone();
            proof {
                assert(old(store).tokens@[gi.0].token@ == token@);
                assert(!mid.has_token(new_token@)) by {
                    assert forall|k: int| 0 <= k < mid.tokens@.len() implies (
                    #[trigger] mid.tokens@[k].token@) != new_token@ by {
                        let i0 = choose|i0: int|
                            0 <= i0 < old(store).tokens@.len() && (#[trigger] old(
                                store,
                            ).tokens@[i0].token@) == token@ && mid.tokens@ == old(
                                store,
                            ).tokens@.update(i0, marked_row(old(store).tokens@[i0], now));
                        assert(mid.tokens@[k].token@ == old(store).tokens@[k].token@);
                    }
                }
            }
            match add_token(store, user.id, new_token, Some(token.clone()), None, now) {
                Ok(()) => {},
                Err(e) => {
                    return Err(e);
                },
            }
            proof {
                let prev = *old(store);
                let i0 = choose|i0: int|
                    0 <= i0 < prev.tokens@.len() && (#[trigger] prev.tokens@[i0].token@) == token@
                        && mid.tokens@ == prev.tokens@.update(
                        i0,
                        marked_row(prev.tokens@[i0], now),
                    );
                lemma_join_unique(prev, token@, i0, gi.1, gi.0, gi.1);
                assert(user.id == prev.tokens@[i0].user);
                assert(store.tokens@ == prev.tokens@.update(
                    i0,
                    marked_row(prev.tokens@[i0], now),
                ).push(store.tokens@.last()));
                assert(rotation_applied(prev, *store, token@, new_token@, now));
            }
            return Ok((user, Some(nt2)));
        }
    }
    Ok((user, None))
}


/// Deletes every login token issued before the expiration window.
#[verifier::loop_isolation(false)]
pub fn purge_login_tokens(store: &mut Store, token_expiration_ms: i64, now: i64) -> (r: Result<
    (),
    Error,
>)
    requires
        old(store).wf(),
    ensures
        final(store).wf(),
        (r is Ok),
        final(store).users@ == old(store).users@,
        final(store).newemails@ == old(store).newemails@,
        final(store).newpasswords@ == old(store).newpasswords@,
        final(store).invites@ == old(store).invites@,
        final(store).next_id == old(store).next_id,
        final(store).tokens@ == old(store).tokens@.filter(
            (|t: TokenRow| !((t.tokendate as int) < now - token_expiration_ms)),
        ),
{
    let ghost pred = |t: TokenRow| !((t.tokendate as int) < now - token_expiration_ms);
    let ghost prevtokens = store.tokens@;
    let mut acc: Vec<TokenRow> = Vec::new();
    let mut i: usize = 0;
    proof {
        assert(prevtokens.subrange(0, 0) =~= Seq::<TokenRow>::empty());
        reveal(Seq::filter);
    }
    while i < store.tokens.len()
        invariant
            i <= store.tokens@.len(),
            store.tokens@ == prevtokens,
            acc@ == prevtokens.subrange(0, i as int).filter(pred),
        decreases store.tokens@.len() - i,
    {
        proof {
            assert(prevtokens.subrange(0, i + 1) =~= prevtokens.subrange(0, i as int).push(
                prevtokens[i as int],
            ));
            crate::store::lemma_filter_push(
                prevtokens.subrange(0, i as int),
                prevtokens[i as int],
                pred,
            );
        }
        if !((store.tokens[i].tokendate as i128) < (now as i128) - (token_expiration_ms as i128)) {
            acc.push(store.tokens[i].clone());
        }
        i = i + 1;
    }
    proof {
        assert(prevtokens.subrange(0, prevtokens.len() as int) =~= prevtokens);
    }
    store.tokens = acc;
    proof {
        lemma_filter_pairwise(prevtokens, pred, |a: TokenRow, b: TokenRow| a.token@ != b.token@);
    }
    Ok(())
}

/// Deletes every login token of one class issued before the window.
#[verifier::loop_isolation(false)]
pub fn purge_login_tokens_type(
    store: &mut Store,
    token_expiration_ms: i64,
    token_type: &String,
    now: i64,
) -> (r: Result<(), Error>)
    requires
        old(store).wf(),
    ensures
        final(store).wf(),
        (r is Ok),
        final(store).users@ == old(store).users@,
        final(store).newemails@ == old(store).newemails@,
        final(store).newpasswords@ == old(store).newpasswords@,
        final(store).invites@ == old(store).invites@,
        final(store).next_id == old(store).next_id,
        final(store).tokens@ == old(store).tokens@.filter(
            (|t: TokenRow| !((t.tokendate as int) < now - token_expiration_ms
                && t.toktype.deep_view() == Some(token_type@))),
        ),
{
    let ghost pred = |t: TokenRow| !((t.tokendate as int) < now - token_expiration_ms
        && t.toktype.deep_view() == Some(token_type@));
    let ghost prevtokens = store.tokens@;
    let mut acc: Vec<TokenRow> = Vec::new();
    let mut i: usize = 0;
    proof {
        assert(prevtokens.subrange(0, 0) =~= Seq::<TokenRow>::empty());
        reveal(Seq::filter);
    }
    while i < store.tokens.len()
        invariant
            i <= store.tokens@.len(),
            store.tokens@ == prevtokens,
            acc@ == prevtokens.subrange(0, i as int).filter(pred),
        decreases store.tokens@.len() - i,
    {
        proof {
            assert(prevtokens.subrange(0, i + 1) =~= prevtokens.subrange(0, i as int).push(
                prevtokens[i as int],
            ));
            crate::store::lemma_filter_push(
                prevtokens.subrange(0, i as int),
                prevtokens[i as int],
                pred,
            );
        }
        let dated = (store.tokens[i].tokendate as i128) < (now as i128) - (
        token_expiration_ms as i128);
        let typed = match &store.tokens[i].toktype {
            Some(tt) => *tt == *token_type,
            None => false,
        };
        proof {
            match prevtokens[i as int].toktype {
                Some(tt) => {
                    assert(prevtokens[i as int].toktype.deep_view() == Some(tt@));
                },
                None => {
                    assert(prevtokens[i as int].toktype.deep_view() == None::<Seq<char>>);
                },
            }
        }
        if !(dated && typed) {
            acc.push(store.tokens[i].clone());
        }
        i = i + 1;
    }
    proof {
        assert(prevtokens.subrange(0, prevtokens.len() as int) =~= prevtokens);
    }
    store.tokens = acc;
    proof {
        lemma_filter_pairwise(prevtokens, pred, |a: TokenRow, b: TokenRow| a.token@ != b.token@);
    }
    Ok(())
}

/// Deletes every pending email change issued before the window.
#[verifier::loop_isolation(false)]
pub fn purge_email_tokens(store: &mut Store, token_expiration_ms: i64, now: i64) -> (r: Result<
    (),
    Error,
>)
    requires
        old(store).wf(),
    ensures
        final(store).wf(),
        (r is Ok),
        final(store).users@ == old(store).users@,
        final(store).tokens@ == old(store).tokens@,
        final(store).newpasswords@ == old(store).newpasswords@,
        final(store).invites@ == old(store).invites@,
        final(store).next_id == old(store).next_id,
        final(store).newemails@ == old(store).newemails@.filter(
            (|t: NewEmailRow| !((t.tokendate as int) < now - token_expiration_ms)),
        ),
{
    let ghost pred = |t: NewEmailRow| !((t.tokendate as int) < now - token_expiration_ms);
    let ghost prevrows = store.newemails@;
    let mut acc: Vec<NewEmailRow> = Vec::new();
    let mut i: usize = 0;
    proof {
        assert(prevrows.subrange(0, 0) =~= Seq::<NewEmailRow>::empty());
        reveal(Seq::filter);
    }
    while i < store.newemails.len()
        invariant
            i <= store.newemails@.len(),
            store.newemails@ == prevrows,
            acc@ == prevrows.subrange(0, i as int).filter(pred),
        decreases store.newemails@.len() - i,
    {
        proof {
            assert(prevrows.subrange(0, i + 1) =~= prevrows.subrange(0, i as int).push(
                prevrows[i as int],
            ));
            crate::store::lemma_filter_push(
                prevrows.subrange(0, i as int),
                prevrows[i as int],
                pred,
            );
        }
        if !((store.newemails[i].tokendate as i128) < (now as i128) - (token_expiration_ms as i128)) {
            acc.push(store.newemails[i].clone());
        }
        i = i + 1;
    }
    proof {
        assert(prevrows.subrange(0, prevrows.len() as int) =~= prevrows);
    }
    store.newemails = acc;
    proof {
        lemma_filter_pairwise(
            prevrows,
            pred,
            |a: NewEmailRow, b: NewEmailRow| !(a.user == b.user && a.token@ == b.token@),
        );
    }
    Ok(())
}

/// Deletes every pending password reset issued before the window.
#[verifier::loop_isolation(false)]
pub fn purge_reset_tokens(store: &mut Store, token_expiration_ms: i64, now: i64) -> (r: Result<
    (),
    Error,
>)
    requires
        old(store).wf(),
    ensures
        final(store).wf(),
        (r is Ok),
        final(store).users@ == old(store).users@,
        final(store).tokens@ == old(store).tokens@,
        final(store).newemails@ == old(store).newemails@,
        final(store).invites@ == old(store).invites@,
        final(store).next_id == old(store).next_id,
        final(store).newpasswords@ == old(store).newpasswords@.filter(
            (|t: NewPasswordRow| !((t.tokendate as int) < now - token_expiration_ms)),
        ),
{
    let ghost pred = |t: NewPasswordRow| !((t.tokendate as int) < now - token_expiration_ms);
    let ghost prevrows = store.newpasswords@;
    let mut acc: Vec<NewPasswordRow> = Vec::new();
    let mut i: usize = 0;
    proof {
        assert(prevrows.subrange(0, 0) =~= Seq::<NewPasswordRow>::empty());
        reveal(Seq::filter);
    }
    while i < store.newpasswords.len()
        invariant
            i <= store.newpasswords@.len(),
            store.newpasswords@ == prevrows,
            acc@ == prevrows.subrange(0, i as int).filter(pred),
        decreases store.newpasswords@.len() - i,
    {
        proof {
            assert(prevrows.subrange(0, i + 1) =~= prevrows.subrange(0, i as int).push(
                prevrows[i as int],
            ));
            crate::store::lemma_filter_push(
                prevrows.subrange(0, i as int),
                prevrows[i as int],
                pred,
            );
        }
        if !((store.newpasswords[i].tokendate as i128) < (now as i128) - (
        token_expiration_ms as i128)) {
            acc.push(store.newpasswords[i].clone());
        }
        i = i + 1;
    }
    proof {
        assert(prevrows.subrange(0, prevrows.len() as int) =~= prevrows);
    }
    store.newpasswords = acc;
    proof {
        lemma_filter_pairwise(
            prevrows,
            pred,
            |a: NewPasswordRow, b: NewPasswordRow| !(a.user == b.user && a.token@ == b.token@),
        );
    }
    Ok(())
}

/// Deletes every invitation issued before the window.
#[verifier::loop_isolation(false)]
pub fn purge_user_invites(store: &mut Store, token_expiration_ms: i64, now: i64) -> (r: Result<
    (),
    Error,
>)
    requires
        old(store).wf(),
    ensures
        final(store).wf(),
        (r is Ok),
        final(store).users@ == old(store).users@,
        final(store).tokens@ == old(store).tokens@,
        final(store).newemails@ == old(store).newemails@,
        final(store).newpasswords@ == old(store).newpasswords@,
        final(store).next_id == old(store).next_id,
        final(store).invites@ == old(store).invites@.filter(
            (|t: InviteRow| !((t.tokendate as int) < now - token_expiration_ms)),
        ),
{
    let ghost pred = |t: InviteRow| !((t.tokendate as int) < now - token_expiration_ms);
    let ghost prevrows = store.invites@;
    let mut acc: Vec<InviteRow> = Vec::new();
    let mut i: usize = 0;
    proof {
        assert(prevrows.subrange(0, 0) =~= Seq::<InviteRow>::empty());
        reveal(Seq::filter);
    }
    while i < store.invites.len()
        invariant
            i <= store.invites@.len(),
            store.invites@ == prevrows,
            acc@ == prevrows.subrange(0, i as int).filter(pred),
        decreases store.invites@.len() - i,
    {
        proof {
            assert(prevrows.subrange(0, i + 1) =~= prevrows.subrange(0, i as int).push(
                prevrows[i as int],
            ));
            crate::store::lemma_filter_push(
                prevrows.subrange(0, i as int),
                prevrows[i as int],
                pred,
            );
        }
        if !((store.invites[i].tokendate as i128) < (now as i128) - (token_expiration_ms as i128)) {
            acc.push(store.invites[i].clone());
        }
        i = i + 1;
    }
    proof {
        assert(prevrows.subrange(0, prevrows.len() as int) =~= prevrows);
    }
    store.invites = acc;
    proof {
        lemma_filter_pairwise(prevrows, pred, |a: InviteRow, b: InviteRow| a.token@ != b.token@);
    }
    Ok(())
}

/// The periodic expiry sweep: login tokens (when a window is configured)
/// and all three kinds of pending-action records, each against its own
/// TTL from the configuration.
pub fn purge_tokens(store: &mut Store, config: &Config, now: i64) -> (r: Result<(), Error>)
    requires
        old(store).wf(),
    ensures
        final(store).wf(),
        (r is Ok),
        final(store).users@ == old(store).users@,
        final(store).next_id == old(store).next_id,
        match config.login_token_expiration_ms {
            Some(expms) => final(store).tokens@ == old(store).tokens@.filter(
                (|t: TokenRow| !((t.tokendate as int) < now - expms)),
            ),
            None => final(store).tokens@ == old(store).tokens@,
        },
        final(store).newemails@ == old(store).newemails@.filter(
            (|t: NewEmailRow| !((t.tokendate as int) < now - config.email_token_expiration_ms)),
        ),
        final(store).newpasswords@ == old(store).newpasswords@.filter(
            (|t: NewPasswordRow| !((t.tokendate as int) < now - config.reset_token_expiration_ms)),
        ),
        final(store).invites@ == old(store).invites@.filter(
            (|t: InviteRow| !((t.tokendate as int) < now - config.invite_token_expiration_ms)),
        ),
{
    match config.login_token_expiration_ms {
        Some(expms) => {
            let res = purge_login_tokens(store, expms, now);
            match res {
                Ok(()) => {},
                Err(e) => {
                    return Err(e);
                },
            }
        },
        None => {},
    }
    match purge_email_tokens(store, config.email_token_expiration_ms, now) {
        Ok(()) => {},
        Err(e) => {
            return Err(e);
        },
    }
    match purge_reset_tokens(store, config.reset_token_expiration_ms, now) {
        Ok(()) => {},
        Err(e) => {
            return Err(e);
        },
    }
    match purge_user_invites(store, config.invite_token_expiration_ms, now) {
        Ok(()) => {},
        Err(e) => {
            return Err(e);
        },
    }
    Ok(())
}


/// The row after binding an account to a remote instance: remote url and
/// federation cookie set, everything else kept.
pub open spec fn remote_bound(stored: User, new: User, remote_url: Seq<char>, cookie: Option<String>) -> bool {
    &&& new.id == stored.id
    &&& new.uuid@ == stored.uuid@
    &&& new.name@ == stored.name@
    &&& new.hashwd@ == stored.hashwd@
    &&& new.salt@ == stored.salt@
    &&& new.email@ == stored.email@
    &&& new.registration_key.deep_view() == stored.registration_key.deep_view()
    &&& new.admin == stored.admin
    &&& new.active == stored.active
    &&& new.remote_url.deep_view() == Some(remote_url)
    &&& new.cookie.deep_view() == cookie.deep_view()
}

/// First half of a remote-url change: verifies the caller's password and
/// hands back the login request that the host must post to the remote
/// instance's user endpoint.
pub fn change_remote_url_login(store: &Store, uid: UserId, cru: &ChangeRemoteUrl) -> (r: Result<
    Login,
    Error,
>)
    requires
        store.wf(),
    ensures
        (r matches Err(e) && e == Error::NotFound) <==> !store.has_uid(uid.as_int()),
        (r matches Err(e) && e == Error::InvalidCredentials) <==> (exists|i: int|
            0 <= i < store.users@.len() && (#[trigger] store.users@[i]).id == uid && !pwd_matches(
                store.users@[i],
                cru.pwd@,
            )),
        r is Ok <==> (exists|i: int|
            0 <= i < store.users@.len() && (#[trigger] store.users@[i]).id == uid && pwd_matches(
                store.users@[i],
                cru.pwd@,
            )),
        r matches Ok(l) ==> l.pwd@ == cru.pwd@ && exists|i: int|
            0 <= i < store.users@.len() && (#[trigger] store.users@[i]).id == uid && l.uid@
                == store.users@[i].name@ && pwd_matches(store.users@[i], cru.pwd@),
{
    let idx = match store.find_user_idx_by_id(uid) {
        None => {
            return Err(Error::NotFound);
        },
        Some(i) => i,
    };
    proof {
        assert forall|i: int|
            0 <= i < store.users@.len() && (#[trigger] store.users@[i]).id == uid implies i
            == idx as int by {
            if i < idx as int {
                assert(store.users@[i].id.as_int() != store.users@[idx as int].id.as_int());
            } else if i > idx as int {
                assert(store.users@[idx as int].id.as_int() != store.users@[i].id.as_int());
            }
        }
    }
    if !verify_password(&store.users[idx], cru.pwd.as_str()) {
        return Err(Error::InvalidCredentials);
    }
    Ok(Login { uid: store.users[idx].name.clone(), pwd: cru.pwd.clone() })
}

/// Second half of a remote-url change: given what the remote instance
/// answered, either binds the local account to that remote identity
/// (storing the returned federation cookie) or reports why not.  The
/// password was verified by `change_remote_url_login` before the post.
pub fn change_remote_url_apply(
    store: &mut Store,
    uid: UserId,
    cru: &ChangeRemoteUrl,
    cookie: Option<String>,
    response: &UserResponse,
) -> (r: Result<UserResponse, Error>)
    requires
        old(store).wf(),
    ensures
        final(store).wf(),
        final(store).next_id == old(store).next_id,
        final(store).tokens@ == old(store).tokens@,
        final(store).newemails@ == old(store).newemails@,
        final(store).newpasswords@ == old(store).newpasswords@,
        final(store).invites@ == old(store).invites@,
        (r matches Err(e) && e == Error::NotFound) <==> !old(store).has_uid(uid.as_int()),
        r is Err ==> final(store).users@ == old(store).users@,
        old(store).has_uid(uid.as_int()) ==> match *response {
            UserResponse::UrpLoggedIn(ref ld) => (exists|i: int|
                0 <= i < old(store).users@.len() && (#[trigger] old(store).users@[i]).id == uid
                    && if ld.uuid@ == old(store).users@[i].uuid@ {
                    (r matches Ok(resp) && resp is UrpChangedRemoteUrl) && final(store).users@
                        == old(store).users@.update(i, final(store).users@[i]) && remote_bound(
                        old(store).users@[i],
                        final(store).users@[i],
                        cru.remote_url@,
                        cookie,
                    )
                } else {
                    (r matches Ok(resp) && resp is UrpInvalidUserUuid) && final(store).users@
                        == old(store).users@
                }),
            _ => (r matches Ok(resp) && resp is UrpRemoteRegistrationFailed) && final(store).users@
                == old(store).users@,
        },
{
    let idx = match store.find_user_idx_by_id(uid) {
        None => {
            return Err(Error::NotFound);
        },
        Some(i) => i,
    };
    match response {
        UserResponse::UrpLoggedIn(ld) => {
            if !(ld.uuid == store.users[idx].uuid) {
                return Ok(UserResponse::UrpInvalidUserUuid);
            }
            let stored = &store.users[idx];
            let newu = User {
                id: stored.id,
                uuid: stored.uuid.clone(),
                name: stored.name.clone(),
                hashwd: stored.hashwd.clone(),
                salt: stored.salt.clone(),
                email: stored.email.clone(),
                registration_key: stored.registration_key.clone(),
                admin: stored.admin,
                active: stored.active,
                remote_url: Some(cru.remote_url.clone()),
                cookie,
            };
            proof {
                lemma_name_key_free(*store, idx as int);
            }
            store.set_user_row(idx, newu);
            Ok(UserResponse::UrpChangedRemoteUrl)
        },
        _ => Ok(UserResponse::UrpRemoteRegistrationFailed),
    }
}

} // verus!
