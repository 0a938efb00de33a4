use crate::data::{AdminRequest, AdminResponse, AuthedRequest, ChangeRemoteUrl, Config, Login, LoginData, PhantomUser, PwdReset, RegistrationData, UserId, UserInvite, UserRequest, UserResponse, RSVP};
use crate::data::User;
use crate::store::Store;
use crate::error::Error;
use vstd::prelude::*;

verus! {

/// Host-supplied extension points, passed into the dispatchers by
/// reference for the duration of one call.  Nothing is assumed of what an
/// implementation returns: every caller in this crate is verified for
/// every possible answer.
pub trait Callbacks {
    /// Attach host-specific per-user data when a user row is created,
    /// inside the same unit of work.
    fn on_new_user(
        &mut self,
        rd: &RegistrationData,
        data: Option<String>,
        remote_data: Option<String>,
        creator: Option<UserId>,
        uid: UserId,
    ) -> Result<(), Error>;

    /// An opaque blob to attach to a user's login response.
    fn extra_login_data(&mut self, uid: UserId) -> Result<Option<String>, Error>;

    /// Veto hook for user deletion; `false` blocks the deletion.
    fn on_delete_user(&mut self, uid: UserId) -> Result<bool, Error>;
}

/// A host that attaches nothing and never vetoes; also the stand-in for
/// tests.
pub struct NoopCallbacks {}

impl Callbacks for NoopCallbacks {
    fn on_new_user(
        &mut self,
        rd: &RegistrationData,
        data: Option<String>,
        remote_data: Option<String>,
        creator: Option<UserId>,
        uid: UserId,
    ) -> (r: Result<(), Error>)
        ensures
            r is Ok,
    {
        Ok(())
    }

    fn extra_login_data(&mut self, uid: UserId) -> (r: Result<Option<String>, Error>)
        ensures
            r matches Ok(d) && d is None,
    {
        Ok(None)
    }

    fn on_delete_user(&mut self, uid: UserId) -> (r: Result<bool, Error>)
        ensures
            r matches Ok(b) && b,
    {
        Ok(true)
    }
}

/// The token carrier: get, set and clear one opaque token value in
/// whatever per-connection storage the host uses.
pub trait Tokener {
    /// The token currently held by the carrier.
    spec fn stored(&self) -> Option<Seq<char>>;

    fn set(&mut self, token: String)
        ensures
            final(self).stored() == Some(token@),
    ;

    fn remove(&mut self)
        ensures
            final(self).stored() is None,
    ;

    fn get(&self) -> (r: Option<String>)
        ensures
            match r {
                Some(t) => self.stored() == Some(t@),
                None => self.stored() is None,
            },
    ;
}

/// An in-memory token carrier: the stand-in for tests and for hosts
/// without a session mechanism.
pub struct UuidTokener {
    pub uuid: Option<String>,
}

impl Tokener for UuidTokener {
    open spec fn stored(&self) -> Option<Seq<char>> {
        match self.uuid {
            Some(s) => Some(s@),
            None => None,
        }
    }

    fn set(&mut self, token: String) {
        self.uuid = Some(token);
    }

    fn remove(&mut self) {
        self.uuid = None;
    }

    fn get(&self) -> (r: Option<String>) {
        match &self.uuid {
            Some(s) => Some(s.clone()),
            None => None,
        }
    }
}


/// One outbound mail the host should compose and send on the engine's
/// behalf.  Delivery failures must not roll back the state change that
/// produced the request.
#[derive(Debug, Clone)]
pub enum EmailRequest {
    /// Registration confirmation for a new or re-registered user.
    Registration { email: String, uid: String, reg_key: String },
    /// Tell the site admin a registration happened.
    RegistrationNotification { email: String, uid: String, reg_key: String },
    /// Password-reset link.
    Reset { email: String, name: String, reset_key: String },
    /// Tell the site admin an invite was redeemed.
    RsvpNotification { email: String, uid: String },
    /// Confirmation link for an email change.
    NewEmailConfirmation { email: String, name: String, token: String },
}

/// What one dispatched end-user request asks of the host: either a wire
/// response plus mails to send, or an outbound call to a federated peer,
/// whose answer comes back through `user_interface_remote_register` or
/// `change_remote_url_apply`.
#[derive(Debug)]
pub enum UserOutcome {
    Reply(UserResponse, Vec<EmailRequest>),
    RemoteRegister { login: Login, rd: RegistrationData },
    RemoteUrlChange { uid: UserId, cru: ChangeRemoteUrl, login: Login },
}

/// Attaches the host's extra data, issues a fresh login token bound to
/// the user, and stores it in the caller's token carrier.
pub fn log_user_in<T: Tokener, C: Callbacks>(
    store: &mut Store,
    tokener: &mut T,
    callbacks: &mut C,
    uid: UserId,
    now: i64,
) -> (r: Result<LoginData, Error>)
    requires
        old(store).wf(),
    ensures
        final(store).wf(),
        final(store).users@ == old(store).users@,
        final(store).newemails@ == old(store).newemails@,
        final(store).newpasswords@ == old(store).newpasswords@,
        final(store).invites@ == old(store).invites@,
        final(store).next_id == old(store).next_id,
        !old(store).has_uid(uid.as_int()) ==> (r matches Err(e) && e == Error::NotFound),
        r is Err ==> final(store).tokens@ == old(store).tokens@ && final(tokener).stored() == old(tokener).stored(),
        r matches Ok(ld) ==> ({
            &&& exists|j: int|
                0 <= j < old(store).users@.len() && (#[trigger] old(store).users@[j]).id == uid
                    && crate::dbfun::login_data_of(old(store).users@[j], ld)
            &&& final(store).tokens@.len() == old(store).tokens@.len() + 1
            &&& final(store).tokens@ == old(store).tokens@.push(final(store).tokens@.last())
            &&& final(store).tokens@.last().user == uid
            &&& final(store).tokens@.last().tokendate == now
            &&& final(store).tokens@.last().regendate is None
            &&& final(store).tokens@.last().prevtoken is None
            &&& final(store).tokens@.last().toktype is None
            &&& final(tokener).stored() == Some(final(store).tokens@.last().token@)
        }),
{
    let ld = match crate::dbfun::login_data_cb(store, uid, callbacks) {
        Ok(ld) => ld,
        Err(e) => {
            return Err(e);
        },
    };
    let token = crate::util::new_uuid_string();
    let t2 = token.clone();
    match crate::dbfun::add_token(store, uid, token, None, None, now) {
        Ok(()) => {},
        Err(e) => {
            return Err(e);
        },
    }
    tokener.set(t2);
    Ok(ld)
}


/// Everything the authenticated sub-requests promise, relative to the
/// store they start from, with success owed wherever no host hook and
/// no random draw decides.
pub open spec fn loggedin_post(
    prev: Store,
    cur: Store,
    uid: UserId,
    config: Config,
    msg: AuthedRequest,
    now: i64,
    r: Result<UserOutcome, Error>,
) -> bool {
    &&& cur.next_id == prev.next_id
    &&& cur.tokens@ == prev.tokens@
    &&& cur.newpasswords@ == prev.newpasswords@
    &&& match msg {
        AuthedRequest::AthChangePassword(cp) => ({
            &&& cur.newemails@ == prev.newemails@
            &&& cur.invites@ == prev.invites@
            &&& ((r is Ok) <==> (exists|i: int|
                0 <= i < prev.users@.len() && (#[trigger] prev.users@[i]).id == uid
                    && prev.users@[i].registration_key is None && crate::dbfun::pwd_matches(
                    prev.users@[i],
                    cp.oldpwd@,
                )))
            &&& r matches Ok(o) ==> (o matches UserOutcome::Reply(resp, mails) && resp
                is UrpChangedPassword && mails@.len() == 0)
            &&& r is Ok ==> exists|i: int|
                0 <= i < prev.users@.len() && (#[trigger] prev.users@[i]).id == uid && cur.users@
                    == prev.users@.update(i, cur.users@[i]) && crate::dbfun::password_set(
                    prev.users@[i],
                    cur.users@[i],
                    cp.newpwd@,
                )
            &&& r is Err ==> cur.users@ == prev.users@
            &&& ((r matches Err(e) && e == Error::NotFound) <==> !prev.has_uid(uid.as_int()))
        }),
        AuthedRequest::AthChangeEmail(ce) => ({
            &&& cur.users@ == prev.users@
            &&& cur.invites@ == prev.invites@
            &&& r is Err ==> cur.newemails@ == prev.newemails@
            &&& ((r matches Err(e) && e == Error::NotFound) <==> !prev.has_uid(uid.as_int()))
            &&& ((r matches Err(e) && e == Error::InvalidCredentials) <==> (exists|i: int|
                0 <= i < prev.users@.len() && (#[trigger] prev.users@[i]).id == uid && (
                prev.users@[i].registration_key is Some || !crate::dbfun::pwd_matches(
                    prev.users@[i],
                    ce.pwd@,
                ))))
            &&& (exists|i: int|
                0 <= i < prev.users@.len() && (#[trigger] prev.users@[i]).id == uid
                    && prev.users@[i].registration_key is None && crate::dbfun::pwd_matches(
                    prev.users@[i],
                    ce.pwd@,
                )) ==> ((r is Ok) || (r matches Err(e) && e == Error::Conflict))
            &&& r matches Ok(o) ==> ({
                &&& o matches UserOutcome::Reply(resp, mails) && resp is UrpChangedEmail && (
                config.send_emails == (mails@.len() == 1))
                &&& cur.newemails@.len() == prev.newemails@.len() + 1
                &&& cur.newemails@ == prev.newemails@.push(cur.newemails@.last())
                &&& cur.newemails@.last().user == uid
                &&& cur.newemails@.last().email@ == ce.email@
                &&& cur.newemails@.last().tokendate == now
            })
        }),
        AuthedRequest::AthGetInvite(gi) => ({
            &&& cur.users@ == prev.users@
            &&& cur.newemails@ == prev.newemails@
            &&& r is Err ==> cur.invites@ == prev.invites@
            &&& !config.non_admin_invite ==> (r matches Err(e) && e == Error::AccessDenied)
            &&& config.non_admin_invite ==> ((r is Ok) || (r matches Err(e) && e
                == Error::Conflict))
            &&& r matches Ok(o) ==> ({
                &&& config.non_admin_invite
                &&& o matches UserOutcome::Reply(resp, mails) && mails@.len() == 0 && (
                resp matches UserResponse::UrpInvite(inv) && inv.creator == uid && inv.token@
                    == cur.invites@.last().token@ && inv.url@ == config.mainsite@ + "/invite/"@
                    + inv.token@)
                &&& cur.invites@.len() == prev.invites@.len() + 1
                &&& cur.invites@ == prev.invites@.push(cur.invites@.last())
                &&& cur.invites@.last().creator == uid
                &&& cur.invites@.last().email.deep_view() == gi.email.deep_view()
                &&& cur.invites@.last().data.deep_view() == gi.data.deep_view()
                &&& cur.invites@.last().tokendate == now
            })
        }),
        AuthedRequest::AthChangeRemoteUrl(cru) => ({
            &&& cur.users@ == prev.users@
            &&& cur.newemails@ == prev.newemails@
            &&& cur.invites@ == prev.invites@
            &&& ((r matches Err(e) && e == Error::NotFound) <==> !prev.has_uid(uid.as_int()))
            &&& ((r matches Err(e) && e == Error::InvalidCredentials) <==> (exists|i: int|
                0 <= i < prev.users@.len() && (#[trigger] prev.users@[i]).id == uid
                    && !crate::dbfun::pwd_matches(prev.users@[i], cru.pwd@)))
            &&& ((r is Ok) <==> (exists|i: int|
                0 <= i < prev.users@.len() && (#[trigger] prev.users@[i]).id == uid
                    && crate::dbfun::pwd_matches(prev.users@[i], cru.pwd@)))
            &&& r matches Ok(o) ==> (o matches UserOutcome::RemoteUrlChange {
                uid: u2,
                cru: c2,
                login,
            } && u2 == uid && c2.remote_url@ == cru.remote_url@ && login.pwd@ == cru.pwd@
                && exists|i: int|
                0 <= i < prev.users@.len() && (#[trigger] prev.users@[i]).id == uid && login.uid@
                    == prev.users@[i].name@ && crate::dbfun::pwd_matches(
                    prev.users@[i],
                    cru.pwd@,
                ))
        }),
        AuthedRequest::AthReadRemoteUser(id) => ({
            &&& crate::store::same_store(cur, prev)
            &&& !prev.has_uid(id.as_int()) ==> (r matches Ok(o) && o matches UserOutcome::Reply(
                resp,
                mails,
            ) && resp is UrpInvalidUserId && mails@.len() == 0)
            &&& r matches Ok(o) ==> prev.has_uid(id.as_int()) ==> (o
                matches UserOutcome::Reply(resp, mails) && mails@.len() == 0 && (
            resp matches UserResponse::UrpRemoteUser(pu) && exists|i: int|
                0 <= i < prev.users@.len() && (#[trigger] prev.users@[i]).id == id && pu.id == id
                    && pu.uuid@ == prev.users@[i].uuid@ && pu.name@ == prev.users@[i].name@
                    && pu.active == prev.users@[i].active))
        }),
    }
}

/// Handles the sub-requests that need an authenticated caller, given the
/// already-resolved user id.
pub fn user_interface_loggedin<C: Callbacks>(
    store: &mut Store,
    config: &Config,
    callbacks: &mut C,
    uid: UserId,
    msg: AuthedRequest,
    now: i64,
) -> (r: Result<UserOutcome, Error>)
    requires
        old(store).wf(),
    ensures
        final(store).wf(),
        loggedin_post(*old(store), *final(store), uid, *config, msg, now, r),
{
    match msg {
        AuthedRequest::AthChangePassword(cp) => {
            match crate::dbfun::change_password(store, uid, &cp) {
                Ok(()) => Ok(UserOutcome::Reply(UserResponse::UrpChangedPassword, Vec::new())),
                Err(e) => Err(e),
            }
        },
        AuthedRequest::AthChangeEmail(ce) => {
            let token = crate::util::new_uuid_string();
            let email2 = ce.email.clone();
            match crate::dbfun::change_email(store, uid, ce, token, now) {
                Ok((name, tok)) => {
                    let mut mails: Vec<EmailRequest> = Vec::new();
                    if config.send_emails {
                        mails.push(
                            EmailRequest::NewEmailConfirmation { email: email2, name, token: tok },
                        );
                    }
                    Ok(UserOutcome::Reply(UserResponse::UrpChangedEmail, mails))
                },
                Err(e) => Err(e),
            }
        },
        AuthedRequest::AthGetInvite(gi) => {
            if !config.non_admin_invite {
                return Err(Error::AccessDenied);
            }
            let invite_key = crate::util::new_uuid_string();
            let k2 = invite_key.clone();
            let data2 = gi.data.clone();
            match crate::dbfun::add_userinvite(store, invite_key, gi.email, uid, gi.data, now) {
                Ok(()) => {
                    let url = String::from_str(config.mainsite.as_str()).concat(
                        "/invite/",
                    ).concat(k2.as_str());
                    Ok(
                        UserOutcome::Reply(
                            UserResponse::UrpInvite(
                                UserInvite {
                                    email: None,
                                    token: k2,
                                    url,
                                    data: data2,
                                    creator: uid,
                                },
                            ),
                            Vec::new(),
                        ),
                    )
                },
                Err(e) => Err(e),
            }
        },
        AuthedRequest::AthChangeRemoteUrl(cru) => {
            match crate::dbfun::change_remote_url_login(store, uid, &cru) {
                Ok(login) => Ok(UserOutcome::RemoteUrlChange { uid, cru, login }),
                Err(e) => Err(e),
            }
        },
        AuthedRequest::AthReadRemoteUser(id) => {
            match crate::dbfun::read_user_by_id(store, id) {
                Err(_) => Ok(UserOutcome::Reply(UserResponse::UrpInvalidUserId, Vec::new())),
                Ok(u) => {
                    let extra = match callbacks.extra_login_data(id) {
                        Ok(x) => x,
                        Err(e) => {
                            return Err(e);
                        },
                    };
                    let pu = PhantomUser {
                        id: u.id,
                        uuid: u.uuid,
                        name: u.name,
                        active: u.active,
                        extra_login_data: match extra {
                            Some(x) => x,
                            None => String::new(),
                        },
                    };
                    Ok(UserOutcome::Reply(UserResponse::UrpRemoteUser(pu), Vec::new()))
                },
            }
        },
    }
}


/// In a well-formed store at most one user holds a given name key.
proof fn lemma_lname_unique(s: Store, i1: int, i2: int)
    requires
        s.wf(),
        0 <= i1 < s.users@.len(),
        0 <= i2 < s.users@.len(),
        crate::util::lower_of(s.users@[i1].name@) == crate::util::lower_of(s.users@[i2].name@),
    ensures
        i1 == i2,
{
    if i1 < i2 {
        assert(crate::util::lower_of(s.users@[i1].name@) != crate::util::lower_of(
            s.users@[i2].name@,
        ));
    } else if i2 < i1 {
        assert(crate::util::lower_of(s.users@[i2].name@) != crate::util::lower_of(
            s.users@[i1].name@,
        ));
    }
}

/// The state machine for end-user requests: maps one request, with the
/// caller's token carrier, to a response or to a federated call for the
/// host to perform.  `now` is the current time in milliseconds since the
/// epoch, as `crate::util::now` reads it.
pub fn user_interface<T: Tokener, C: Callbacks>(
    store: &mut Store,
    tokener: &mut T,
    config: &Config,
    callbacks: &mut C,
    req: UserRequest,
    now: i64,
) -> (r: Result<UserOutcome, Error>)
    requires
        old(store).wf(),
        old(store).next_id < i64::MAX,
    ensures
        final(store).wf(),
        match req {
            UserRequest::UrqLogin(login) => login_post(
                *old(store),
                *final(store),
                final(tokener).stored(),
                login,
                r,
                now,
            ),
            UserRequest::UrqLogout => ({
                &&& r matches Ok(o) && o matches UserOutcome::Reply(resp, mails) && resp
                    is UrpLoggedOut && mails@.len() == 0
                &&& crate::store::same_store(*final(store), *old(store))
                &&& final(tokener).stored() is None
            }),
            UserRequest::UrqReadInvite(tok) => ({
                &&& crate::store::same_store(*final(store), *old(store))
                &&& (r is Ok) == old(store).has_invite(tok@)
                &&& (r matches Err(e) && e == Error::NotFound) <==> !old(store).has_invite(tok@)
                &&& r matches Ok(o) ==> (o matches UserOutcome::Reply(resp, mails) && mails@.len()
                    == 0 && (resp matches UserResponse::UrpInvite(inv) && inv.token@ == tok@))
            }),
            UserRequest::UrqResetPassword(rp) => ({
                &&& (r matches Err(e) && e == Error::NotFound) <==> !old(store).has_name_key(
                    crate::util::lower_of(rp.uid@),
                )
                &&& final(store).users@ == old(store).users@
                &&& final(store).tokens@ == old(store).tokens@
                &&& final(store).newemails@ == old(store).newemails@
                &&& final(store).invites@ == old(store).invites@
                &&& r is Err ==> final(store).newpasswords@ == old(store).newpasswords@
                &&& forall|i: int|
                    0 <= i < old(store).users@.len() && crate::util::lower_of(
                        #[trigger] old(store).users@[i].name@,
                    ) == crate::util::lower_of(rp.uid@) ==> ({
                        let u = old(store).users@[i];
                        &&& u.registration_key is Some ==> (r matches Ok(o) && o
                            matches UserOutcome::Reply(resp, mails) && resp is UrpUnregisteredUser)
                            && final(store).newpasswords@ == old(store).newpasswords@
                        &&& u.registration_key is None ==> ({
                            ||| (r matches Ok(o) && o matches UserOutcome::Reply(resp, mails)
                                && resp is UrpResetPasswordAck && (config.send_emails == (
                                mails@.len() == 1)) && final(store).newpasswords@ == old(store).newpasswords@.push(final(store).newpasswords@.last()) && final(store).newpasswords@.last().user == u.id && final(store).newpasswords@.last().tokendate == now)
                            ||| (r is Err && final(store).newpasswords@ == old(store).newpasswords@)
                        })
                    })
            }),
            UserRequest::UrqSetPassword(sp) => ({
                &&& final(store).tokens@ == old(store).tokens@
                &&& final(store).newemails@ == old(store).newemails@
                &&& final(store).invites@ == old(store).invites@
                &&& !old(store).has_name_key(crate::util::lower_of(sp.uid@)) ==> (r matches Err(e)
                    && e == Error::NotFound) && crate::store::same_store(*final(store), *old(store))
                &&& forall|i: int|
                    0 <= i < old(store).users@.len() && crate::util::lower_of(
                        #[trigger] old(store).users@[i].name@,
                    ) == crate::util::lower_of(sp.uid@) ==> ({
                        let u = old(store).users@[i];
                        &&& u.registration_key is Some ==> (r matches Ok(o) && o
                            matches UserOutcome::Reply(resp, mails) && resp is UrpUnregisteredUser)
                            && crate::store::same_store(*final(store), *old(store))
                        &&& u.registration_key is None && !old(store).has_newpassword(
                            u.id.as_int(),
                            sp.reset_key@,
                        ) ==> (r matches Err(e) && e == Error::NotFound) && crate::store::same_store(
                            *final(store),
                            *old(store),
                        )
                        &&& forall|k: int|
                            0 <= k < old(store).newpasswords@.len() && (#[trigger] old(store).newpasswords@[k]).user == u.id && old(store).newpasswords@[k].token@
                                == sp.reset_key@ && u.registration_key is None ==> ({
                                let issued = old(store).newpasswords@[k].tokendate;
                                &&& crate::util::expired(
                                    config.reset_token_expiration_ms as int,
                                    issued as int,
                                    now as int,
                                ) ==> (r matches Ok(o) && o matches UserOutcome::Reply(resp, mails)
                                    && resp is UrpServerError) && crate::store::same_store(
                                    *final(store),
                                    *old(store),
                                )
                                &&& !crate::util::expired(
                                    config.reset_token_expiration_ms as int,
                                    issued as int,
                                    now as int,
                                ) ==> (r matches Ok(o) && o matches UserOutcome::Reply(
                                    resp,
                                    mails,
                                ) && resp is UrpSetPasswordAck && mails@.len() == 0 && final(store).users@ == old(store).users@.update(i, final(store).users@[i])
                                    && crate::dbfun::password_set(
                                    u,
                                    final(store).users@[i],
                                    sp.newpwd@,
                                ) && !(final(store).has_newpassword(u.id.as_int(), sp.reset_key@)))
                            })
                    })
            }),
            UserRequest::UrqRegister(rd) => register_post(
                *old(store),
                *final(store),
                final(tokener).stored(),
                *config,
                rd,
                now,
                r,
            ),
            UserRequest::UrqRSVP(rsvp) => rsvp_post(
                *old(store),
                *final(store),
                final(tokener).stored(),
                *config,
                rsvp,
                now,
                r,
            ),
            UserRequest::UrqAuthedRequest(areq) => ({
                &&& old(tokener).stored() is None ==> (r matches Ok(o) && o
                    matches UserOutcome::Reply(resp, mails) && resp is UrpNotLoggedIn)
                    && crate::store::same_store(*final(store), *old(store))
                &&& forall|t: Seq<char>|
                    old(tokener).stored() == Some(t) && !crate::dbfun::resolves_ok(
                        *old(store),
                        t,
                        config.login_token_expiration_ms,
                        now,
                    ) ==> (r matches Ok(o) && o matches UserOutcome::Reply(resp, mails) && resp
                        is UrpNotLoggedIn) && crate::store::same_store(*final(store), *old(store))
                &&& forall|i: int, j: int|
                    #![trigger old(store).tokens@[i], old(store).users@[j]]
                    crate::dbfun::token_joins(*old(store), old(store).tokens@[i].token@, i, j)
                        && old(tokener).stored() == Some(old(store).tokens@[i].token@)
                        && crate::dbfun::resolves_ok(
                        *old(store),
                        old(store).tokens@[i].token@,
                        config.login_token_expiration_ms,
                        now,
                    ) ==> (exists|mid: Store|
                        #![trigger mid.wf()]
                        mid.wf() && mid.users@ == old(store).users@ && mid.newemails@ == old(
                            store,
                        ).newemails@ && mid.newpasswords@ == old(store).newpasswords@
                            && mid.invites@ == old(store).invites@ && mid.next_id == old(
                            store,
                        ).next_id && loggedin_post(
                            mid,
                            *final(store),
                            old(store).users@[j].id,
                            *config,
                            areq,
                            now,
                            r,
                        ))
            }),
        },
{
    match req {
        UserRequest::UrqLogin(login) => user_login(store, tokener, callbacks, login, now),
        UserRequest::UrqLogout => {
            tokener.remove();
            Ok(UserOutcome::Reply(UserResponse::UrpLoggedOut, Vec::new()))
        },
        UserRequest::UrqReadInvite(tok) => {
            match crate::dbfun::read_userinvite(store, config.mainsite.as_str(), &tok) {
                Ok(Some(invite)) => Ok(
                    UserOutcome::Reply(UserResponse::UrpInvite(invite), Vec::new()),
                ),
                Ok(None) => Err(Error::NotFound),
                Err(e) => Err(e),
            }
        },
        UserRequest::UrqResetPassword(rp) => {
            let userdata = match crate::dbfun::read_user_by_name(store, rp.uid.as_str()) {
                Ok(u) => u,
                Err(e) => {
                    return Err(e);
                },
            };
            let ghost gi = choose|i: int|
                0 <= i < old(store).users@.len() && #[trigger] old(store).users@[i] == userdata
                    && crate::util::lower_of(userdata.name@) == crate::util::lower_of(rp.uid@);
            proof {
                assert forall|i: int|
                    0 <= i < old(store).users@.len() && crate::util::lower_of(
                        #[trigger] old(store).users@[i].name@,
                    ) == crate::util::lower_of(rp.uid@) implies old(store).users@[i]
                    == userdata by {
                    lemma_lname_unique(*old(store), i, gi);
                }
            }
            if userdata.registration_key.is_some() {
                return Ok(UserOutcome::Reply(UserResponse::UrpUnregisteredUser, Vec::new()));
            }
            let reset_key = crate::util::new_uuid_string();
            let k2 = reset_key.clone();
            match crate::dbfun::add_newpassword(store, userdata.id, reset_key, now) {
                Ok(()) => {},
                Err(e) => {
                    return Err(e);
                },
            }
            let mut mails: Vec<EmailRequest> = Vec::new();
            if config.send_emails {
                mails.push(
                    EmailRequest::Reset {
                        email: userdata.email,
                        name: userdata.name,
                        reset_key: k2,
                    },
                );
            }
            Ok(UserOutcome::Reply(UserResponse::UrpResetPasswordAck, mails))
        },
        UserRequest::UrqSetPassword(sp) => {
            let userdata = match crate::dbfun::read_user_by_name(store, sp.uid.as_str()) {
                Ok(u) => u,
                Err(e) => {
                    return Err(e);
                },
            };
            let ghost gi = choose|i: int|
                0 <= i < old(store).users@.len() && #[trigger] old(store).users@[i] == userdata
                    && crate::util::lower_of(userdata.name@) == crate::util::lower_of(sp.uid@);
            proof {
                assert forall|i: int|
                    0 <= i < old(store).users@.len() && crate::util::lower_of(
                        #[trigger] old(store).users@[i].name@,
                    ) == crate::util::lower_of(sp.uid@) implies old(store).users@[i]
                    == userdata by {
                    lemma_lname_unique(*old(store), i, gi);
                }
            }
            if userdata.registration_key.is_some() {
                return Ok(UserOutcome::Reply(UserResponse::UrpUnregisteredUser, Vec::new()));
            }
            let npwd = match crate::dbfun::read_newpassword(store, userdata.id, &sp.reset_key) {
                Ok(d) => d,
                Err(e) => {
                    return Err(e);
                },
            };
            proof {
                assert forall|k: int|
                    0 <= k < old(store).newpasswords@.len() && (#[trigger] old(store).newpasswords@[k]).user == userdata.id && old(store).newpasswords@[k].token@
                        == sp.reset_key@ implies old(store).newpasswords@[k].tokendate == npwd by {
                    let k0 = choose|k0: int|
                        0 <= k0 < old(store).newpasswords@.len() && (#[trigger] old(store).newpasswords@[k0]).user.as_int() == userdata.id.as_int() && old(store).newpasswords@[k0].token@ == sp.reset_key@ && old(store).newpasswords@[k0].tokendate == npwd;
                    if k < k0 {
                        assert(!(old(store).newpasswords@[k].user == old(store).newpasswords@[k0].user && old(store).newpasswords@[k].token@ == old(store).newpasswords@[k0].token@));
                    } else if k0 < k {
                        assert(!(old(store).newpasswords@[k0].user == old(store).newpasswords@[k].user && old(store).newpasswords@[k0].token@ == old(store).newpasswords@[k].token@));
                    }
                }
            }
            if crate::util::token_expired_at(config.reset_token_expiration_ms, npwd, now) {
                return Ok(
                    UserOutcome::Reply(
                        UserResponse::UrpServerError(
                            String::from_str("password reset failed"),
                        ),
                        Vec::new(),
                    ),
                );
            }
            let newhash = crate::crypto::hash_password(
                sp.newpwd.as_str(),
                userdata.salt.as_str(),
            );
            let idx = match store.find_user_idx_by_id(userdata.id) {
                Some(i) => i,
                None => {
                    return Err(Error::NotFound);
                },
            };
            match crate::dbfun::remove_newpassword(store, userdata.id, &sp.reset_key) {
                Ok(()) => {},
                Err(e) => {
                    return Err(e);
                },
            }
            let stored = &store.users[idx];
            let newu = User {
                id: stored.id,
                uuid: stored.uuid.clone(),
                name: stored.name.clone(),
                hashwd: newhash,
                salt: stored.salt.clone(),
                email: stored.email.clone(),
                registration_key: stored.registration_key.clone(),
                admin: stored.admin,
                active: stored.active,
                remote_url: stored.remote_url.clone(),
                cookie: stored.cookie.clone(),
            };
            proof {
                crate::store::lemma_name_key_free(*store, idx as int);
                if (idx as int) < gi {
                    assert(old(store).users@[idx as int].id.as_int() != old(store).users@[gi].id.as_int());
                } else if gi < idx as int {
                    assert(old(store).users@[gi].id.as_int() != old(store).users@[idx as int].id.as_int());
                }
            }
            store.set_user_row(idx, newu);
            Ok(UserOutcome::Reply(UserResponse::UrpSetPasswordAck, Vec::new()))
        },
        UserRequest::UrqRegister(rd) => user_register(store, tokener, config, callbacks, rd, now),
        UserRequest::UrqRSVP(rsvp) => user_rsvp(store, tokener, config, callbacks, rsvp, now),
        UserRequest::UrqAuthedRequest(areq) => {
            let tok = match tokener.get() {
                None => {
                    return Ok(UserOutcome::Reply(UserResponse::UrpNotLoggedIn, Vec::new()));
                },
                Some(t) => t,
            };
            let user = match crate::dbfun::read_user_by_token_api(
                store,
                &tok,
                config.login_token_expiration_ms,
                config.regen_login_tokens,
                now,
            ) {
                Ok(u) => u,
                Err(_) => {
                    return Ok(UserOutcome::Reply(UserResponse::UrpNotLoggedIn, Vec::new()));
                },
            };
            let ghost mid = *store;
            let ghost gareq = areq;
            let r = user_interface_loggedin(store, config, callbacks, user.id, areq, now);
            proof {
                let gj = choose|i: int, j: int|
                    #![trigger old(store).tokens@[i], old(store).users@[j]]
                    crate::dbfun::token_joins(*old(store), tok@, i, j) && user == old(
                        store,
                    ).users@[j];
                assert(mid.wf());
                assert(loggedin_post(mid, *store, user.id, *config, gareq, now, r));
                assert forall|i: int, j: int|
                    #![trigger old(store).tokens@[i], old(store).users@[j]]
                    crate::dbfun::token_joins(*old(store), old(store).tokens@[i].token@, i, j)
                        && old(tokener).stored() == Some(old(store).tokens@[i].token@)
                        && crate::dbfun::resolves_ok(
                        *old(store),
                        old(store).tokens@[i].token@,
                        config.login_token_expiration_ms,
                        now,
                    ) implies old(store).users@[j] == user by {
                    crate::dbfun::lemma_join_unique(*old(store), tok@, i, j, gj.0, gj.1);
                }
            }
            r
        },
    }
}


/// The row left by completing an earlier, unfinished registration: the
/// address moves to the payload's, the password digest is the payload's
/// (it already was, when the password did not change), and everything
/// else, the pending key included, stays.
pub open spec fn reregistered(u: User, new: User, rd: RegistrationData) -> bool {
    &&& new.id == u.id
    &&& new.uuid@ == u.uuid@
    &&& new.name@ == u.name@
    &&& new.salt@ == u.salt@
    &&& new.email@ == rd.email@
    &&& new.hashwd@ == crate::crypto::hash_of(rd.pwd@, u.salt@)
    &&& new.registration_key.deep_view() == u.registration_key.deep_view()
    &&& new.admin == u.admin
    &&& new.active == u.active
}

/// Everything the registration branch promises: blank and taken names
/// are refused, a fresh local registration creates the row (and, with no
/// confirmation step configured, logs straight in with a fresh token), a
/// remote registration is handed to the host, and an unfinished
/// registration is updated in place, with success owed wherever no host
/// hook and no random draw decides.
pub open spec fn register_post(
    prev: Store,
    cur: Store,
    stored_after: Option<Seq<char>>,
    config: Config,
    rd: RegistrationData,
    now: i64,
    r: Result<UserOutcome, Error>,
) -> bool {
    &&& !config.open_registration ==> (r matches Err(e) && e == Error::RegistrationClosed)
        && crate::store::same_store(cur, prev)
    &&& config.open_registration && !prev.has_name_key(crate::util::lower_of(rd.uid@)) ==> ({
        &&& crate::util::trim_of(rd.uid@).len() == 0 ==> (r matches Ok(o) && o
            matches UserOutcome::Reply(resp, mails) && resp is UrpBlankUserName)
            && crate::store::same_store(cur, prev)
        &&& crate::util::trim_of(rd.uid@).len() != 0 && crate::util::trim_of(rd.pwd@).len() == 0
            ==> (r matches Ok(o) && o matches UserOutcome::Reply(resp, mails) && resp
            is UrpBlankPassword) && crate::store::same_store(cur, prev)
        &&& crate::util::trim_of(rd.uid@).len() != 0 && crate::util::trim_of(rd.pwd@).len() != 0
            && config.remote_registration && rd.remote_url@.len() != 0 ==> (r matches Ok(o) && o
            matches UserOutcome::RemoteRegister { login, rd: rd2 } && login.uid@ == rd.uid@
            && login.pwd@ == rd.pwd@ && rd2.uid@ == rd.uid@) && crate::store::same_store(
            cur,
            prev,
        )
        &&& crate::util::trim_of(rd.uid@).len() != 0 && crate::util::trim_of(rd.pwd@).len() != 0
            && !(config.remote_registration && rd.remote_url@.len() != 0) ==> ({
            ||| (r matches Ok(o) && o matches UserOutcome::Reply(resp, mails) && ({
                &&& (resp is UrpRegistrationSent) == config.send_emails
                &&& config.send_emails ==> mails@.len() == 2 && cur.tokens@ == prev.tokens@
                &&& exists|u: User|
                    #![auto]
                    cur.users@.contains(u) && crate::dbfun::user_row_of(
                        u,
                        rd,
                        if config.send_emails {
                            cur.users@.last().registration_key
                        } else {
                            None
                        },
                        false,
                        None,
                        None,
                    ) && (config.send_emails == (u.registration_key is Some)) && (
                    !config.send_emails ==> ({
                        &&& resp matches UserResponse::UrpLoggedIn(ld)
                            && crate::dbfun::login_data_of(u, ld)
                        &&& cur.tokens@ == prev.tokens@.push(cur.tokens@.last())
                        &&& cur.tokens@.last().user == u.id
                        &&& cur.tokens@.last().prevtoken is None
                        &&& cur.tokens@.last().tokendate == now
                        &&& stored_after == Some(cur.tokens@.last().token@)
                    }))
            }))
            ||| (r is Err)
        })
    })
    &&& config.open_registration ==> forall|i: int|
        0 <= i < prev.users@.len() && crate::util::lower_of(#[trigger] prev.users@[i].name@)
            == crate::util::lower_of(rd.uid@) ==> ({
            let u = prev.users@[i];
            &&& u.registration_key is None ==> (r matches Ok(o) && o
                matches UserOutcome::Reply(resp, mails) && resp is UrpUserExists)
                && crate::store::same_store(cur, prev)
            &&& u.registration_key is Some && crate::util::trim_of(rd.pwd@).len() == 0 ==> (r
                matches Ok(o) && o matches UserOutcome::Reply(resp, mails) && resp
                is UrpBlankPassword) && crate::store::same_store(cur, prev)
            &&& u.registration_key is Some && crate::util::trim_of(rd.pwd@).len() != 0 ==> ({
                &&& cur.newemails@ == prev.newemails@
                &&& cur.newpasswords@ == prev.newpasswords@
                &&& cur.invites@ == prev.invites@
                &&& cur.next_id == prev.next_id
                &&& cur.users@ == prev.users@.update(i, cur.users@[i])
                &&& reregistered(u, cur.users@[i], rd)
                &&& config.send_emails ==> (r matches Ok(o) && o matches UserOutcome::Reply(
                    resp,
                    mails,
                ) && resp is UrpRegistrationSent && mails@.len() == 2) && cur.tokens@
                    == prev.tokens@
                &&& !config.send_emails ==> ({
                    ||| (r matches Ok(o) && o matches UserOutcome::Reply(resp, mails)
                        && mails@.len() == 0 && (resp matches UserResponse::UrpLoggedIn(ld)
                        && crate::dbfun::login_data_of(cur.users@[i], ld)) && ({
                        &&& cur.tokens@ == prev.tokens@.push(cur.tokens@.last())
                        &&& cur.tokens@.last().user == u.id
                        &&& cur.tokens@.last().prevtoken is None
                        &&& cur.tokens@.last().tokendate == now
                        &&& stored_after == Some(cur.tokens@.last().token@)
                    }))
                    ||| (r is Err && cur.tokens@ == prev.tokens@)
                })
            })
        })
}

/// The registration branch of the dispatcher: create a user, or complete
/// an earlier, unfinished registration; with remote registration enabled
/// the host is asked to log in at the remote peer first.
pub fn user_register<T: Tokener, C: Callbacks>(
    store: &mut Store,
    tokener: &mut T,
    config: &Config,
    callbacks: &mut C,
    rd: RegistrationData,
    now: i64,
) -> (r: Result<UserOutcome, Error>)
    requires
        old(store).wf(),
        old(store).next_id < i64::MAX,
    ensures
        final(store).wf(),
        register_post(
            *old(store),
            *final(store),
            final(tokener).stored(),
            *config,
            rd,
            now,
            r,
        ),
{
    if !config.open_registration {
        return Err(Error::RegistrationClosed);
    }
    match crate::dbfun::read_user_by_name(store, rd.uid.as_str()) {
        Ok(user) => {
            let ghost gi = choose|i: int|
                0 <= i < old(store).users@.len() && #[trigger] old(store).users@[i] == user
                    && crate::util::lower_of(user.name@) == crate::util::lower_of(rd.uid@);
            proof {
                assert forall|i: int|
                    0 <= i < old(store).users@.len() && crate::util::lower_of(
                        #[trigger] old(store).users@[i].name@,
                    ) == crate::util::lower_of(rd.uid@) implies old(store).users@[i] == user by {
                    lemma_lname_unique(*old(store), i, gi);
                }
            }
            proof {
                assert forall|i: int|
                    0 <= i < old(store).users@.len() && crate::util::lower_of(
                        #[trigger] old(store).users@[i].name@,
                    ) == crate::util::lower_of(rd.uid@) implies i == gi by {
                    lemma_lname_unique(*old(store), i, gi);
                }
            }
            let reg_key = match &user.registration_key {
                Some(k) => k.clone(),
                None => {
                    return Ok(UserOutcome::Reply(UserResponse::UrpUserExists, Vec::new()));
                },
            };
            if crate::util::is_blank(rd.pwd.as_str()) {
                return Ok(UserOutcome::Reply(UserResponse::UrpBlankPassword, Vec::new()));
            }
            let mut mu = user.clone();
            mu.email = rd.email.clone();
            let pwd_ok = crate::dbfun::verify_password(&user, rd.pwd.as_str());
            proof {
                assert forall|j: int|
                    0 <= j < old(store).users@.len() && (#[trigger] old(store).users@[j]).id
                        != mu.id implies crate::util::lower_of(old(store).users@[j].name@)
                    != crate::util::lower_of(mu.name@) by {
                    if j < gi {
                        assert(crate::util::lower_of(old(store).users@[j].name@)
                            != crate::util::lower_of(old(store).users@[gi].name@));
                    } else if gi < j {
                        assert(crate::util::lower_of(old(store).users@[gi].name@)
                            != crate::util::lower_of(old(store).users@[j].name@));
                    }
                }
            }
            match crate::dbfun::update_user(store, &mu) {
                Ok(()) => {},
                Err(e) => {
                    return Err(e);
                },
            }
            let ghost mid1 = *store;
            proof {
                let ia = choose|i: int|
                    0 <= i < old(store).users@.len() && (#[trigger] old(store).users@[i]).id
                        == mu.id && mid1.users@ == old(store).users@.update(i, mid1.users@[i])
                        && crate::dbfun::user_updated(old(store).users@[i], mu, mid1.users@[i]);
                if ia < gi {
                    assert(old(store).users@[ia].id.as_int() != old(store).users@[gi].id.as_int());
                } else if gi < ia {
                    assert(old(store).users@[gi].id.as_int() != old(store).users@[ia].id.as_int());
                }
                assert(ia == gi);
                assert(mid1.users@[gi].name@ == old(store).users@[gi].name@);
            }
            if !pwd_ok {
                match crate::dbfun::override_password(store, user.id, rd.pwd.clone()) {
                    Ok(()) => {},
                    Err(e) => {
                        return Err(e);
                    },
                }
                proof {
                    let ib = choose|i: int|
                        0 <= i < mid1.users@.len() && (#[trigger] mid1.users@[i]).id == user.id
                            && store.users@ == mid1.users@.update(i, store.users@[i])
                            && crate::dbfun::password_set(
                            mid1.users@[i],
                            store.users@[i],
                            rd.pwd@,
                        );
                    if ib < gi {
                        assert(mid1.users@[ib].id.as_int() != mid1.users@[gi].id.as_int());
                    } else if gi < ib {
                        assert(mid1.users@[gi].id.as_int() != mid1.users@[ib].id.as_int());
                    }
                    assert(ib == gi);
                    assert(store.users@ =~= old(store).users@.update(gi, store.users@[gi]));
                }
            }
            proof {
                assert(store.users@ == old(store).users@.update(gi, store.users@[gi]));
                assert(reregistered(old(store).users@[gi], store.users@[gi], rd));
            }
            if config.send_emails {
                let mut mails: Vec<EmailRequest> = Vec::new();
                mails.push(
                    EmailRequest::Registration {
                        email: rd.email.clone(),
                        uid: rd.uid.clone(),
                        reg_key: reg_key.clone(),
                    },
                );
                mails.push(
                    EmailRequest::RegistrationNotification {
                        email: rd.email,
                        uid: rd.uid,
                        reg_key,
                    },
                );
                Ok(UserOutcome::Reply(UserResponse::UrpRegistrationSent, mails))
            } else {
                let ghost mid2 = *store;
                match log_user_in(store, tokener, callbacks, user.id, now) {
                    Ok(ld) => {
                        proof {
                            let j0 = choose|j: int|
                                0 <= j < mid2.users@.len() && (#[trigger] mid2.users@[j]).id
                                    == user.id && crate::dbfun::login_data_of(mid2.users@[j], ld);
                            if j0 < gi {
                                assert(mid2.users@[j0].id.as_int() != mid2.users@[
                                    gi
                                ].id.as_int());
                            } else if gi < j0 {
                                assert(mid2.users@[gi].id.as_int() != mid2.users@[
                                    j0
                                ].id.as_int());
                            }
                            assert(crate::dbfun::login_data_of(store.users@[gi], ld));
                        }
                        Ok(UserOutcome::Reply(UserResponse::UrpLoggedIn(ld), Vec::new()))
                    },
                    Err(e) => Err(e),
                }
            }
        },
        Err(_) => {
            if crate::util::is_blank(rd.uid.as_str()) {
                return Ok(UserOutcome::Reply(UserResponse::UrpBlankUserName, Vec::new()));
            }
            if crate::util::is_blank(rd.pwd.as_str()) {
                return Ok(UserOutcome::Reply(UserResponse::UrpBlankPassword, Vec::new()));
            }
            if config.remote_registration && !rd.remote_url.as_str().is_empty() {
                let login = Login { uid: rd.uid.clone(), pwd: rd.pwd.clone() };
                return Ok(UserOutcome::RemoteRegister { login, rd });
            }
            let registration_key = crate::util::new_uuid_string();
            let k2 = registration_key.clone();
            let key_opt: Option<String> = if config.send_emails {
                Some(registration_key)
            } else {
                None
            };
            let uid = match crate::dbfun::new_user(
                store,
                &rd,
                key_opt,
                None,
                false,
                None,
                None,
                None,
                None,
                None,
                callbacks,
            ) {
                Ok(u) => u,
                Err(e) => {
                    return Err(e);
                },
            };
            let ghost gu = choose|u: User|
                crate::dbfun::store_push_user(*old(store), *store, u)
                    && crate::dbfun::user_row_of(
                    u,
                    rd,
                    if config.send_emails {
                        Some(k2)
                    } else {
                        None
                    },
                    false,
                    None,
                    None,
                );
            proof {
                assert(store.users@.last() == gu);
                assert(store.users@.contains(gu)) by {
                    assert(store.users@[store.users@.len() - 1] == gu);
                }
            }
            if config.send_emails {
                let mut mails: Vec<EmailRequest> = Vec::new();
                mails.push(
                    EmailRequest::Registration {
                        email: rd.email.clone(),
                        uid: rd.uid.clone(),
                        reg_key: k2.clone(),
                    },
                );
                mails.push(
                    EmailRequest::RegistrationNotification {
                        email: rd.email.clone(),
                        uid: rd.uid.clone(),
                        reg_key: k2,
                    },
                );
                Ok(UserOutcome::Reply(UserResponse::UrpRegistrationSent, mails))
            } else {
                match log_user_in(store, tokener, callbacks, uid, now) {
                    Ok(ld) => {
                        proof {
                            let users = store.users@;
                            let j0 = choose|j: int|
                                0 <= j < users.len() && (#[trigger] users[j]).id == uid
                                    && crate::dbfun::login_data_of(users[j], ld);
                            let n = users.len() - 1;
                            if j0 < n {
                                assert(0 <= old(store).users@[j0].id.as_int() < old(store).next_id);
                            }
                            assert(crate::dbfun::login_data_of(gu, ld));
                            assert(store.users@.contains(gu)) by {
                                assert(store.users@[store.users@.len() - 1] == gu);
                            }
                        }
                        Ok(UserOutcome::Reply(UserResponse::UrpLoggedIn(ld), Vec::new()))
                    },
                    Err(e) => Err(e),
                }
            }
        },
    }
}

/// Everything the invite-redemption branch promises: the invite must
/// exist and is single use, an existing name needs the matching password
/// on an active account (a pending registration key is cleared), and a
/// fresh name is created from the invite payload and logged in.
pub open spec fn rsvp_post(
    prev: Store,
    cur: Store,
    stored_after: Option<Seq<char>>,
    config: Config,
    rsvp: RSVP,
    now: i64,
    r: Result<UserOutcome, Error>,
) -> bool {
    &&& !prev.has_invite(rsvp.invite@) ==> (r matches Err(e) && e == Error::NotFound)
            && crate::store::same_store(cur, prev)
    &&& r matches Ok(o) ==> o matches UserOutcome::Reply(resp, mails) ==> resp
            matches UserResponse::UrpLoggedIn(ld) ==> !(cur.has_invite(rsvp.invite@))
    &&& prev.has_invite(rsvp.invite@) ==> forall|i: int|
            0 <= i < prev.users@.len() && crate::util::lower_of(
                #[trigger] prev.users@[i].name@,
            ) == crate::util::lower_of(rsvp.uid@) ==> ({
                let u = prev.users@[i];
                &&& !crate::dbfun::pwd_matches(u, rsvp.pwd@) ==> (r matches Ok(o) && o
                    matches UserOutcome::Reply(resp, mails) && resp is UrpInvalidUserOrPwd)
                    && crate::store::same_store(cur, prev)
                &&& crate::dbfun::pwd_matches(u, rsvp.pwd@) && !u.active ==> (r matches Ok(o) && o
                    matches UserOutcome::Reply(resp, mails) && resp is UrpAccountDeactivated)
                    && crate::store::same_store(cur, prev)
                &&& crate::dbfun::pwd_matches(u, rsvp.pwd@) && u.active ==> ({
                    &&& cur.newemails@ == prev.newemails@
                    &&& cur.newpasswords@ == prev.newpasswords@
                    &&& cur.next_id == prev.next_id
                    &&& !(cur.has_invite(rsvp.invite@))
                    &&& u.registration_key is Some ==> cur.users@ == prev.users@.update(i, cur.users@[i]) && registration_cleared(
                        u,
                        cur.users@[i],
                    )
                    &&& u.registration_key is None ==> cur.users@ == prev.users@
                    &&& r is Err ==> cur.tokens@ == prev.tokens@
                    &&& (r is Err || (r matches Ok(o) && o matches UserOutcome::Reply(resp, mails)
                        && mails@.len() == 0 && (resp matches UserResponse::UrpLoggedIn(ld)
                        && ld.userid == u.id) && ({
                        &&& cur.tokens@ == prev.tokens@.push(
                            cur.tokens@.last(),
                        )
                        &&& cur.tokens@.last().user == u.id
                        &&& cur.tokens@.last().prevtoken is None
                        &&& cur.tokens@.last().tokendate == now
                        &&& stored_after == Some(cur.tokens@.last().token@)
                    })))
                })
            })
    &&& prev.has_invite(rsvp.invite@) && !prev.has_name_key(
            crate::util::lower_of(rsvp.uid@),
        ) ==> ({
            &&& crate::util::trim_of(rsvp.uid@).len() == 0 ==> (r matches Ok(o) && o
                matches UserOutcome::Reply(resp, mails) && resp is UrpBlankUserName)
                && crate::store::same_store(cur, prev)
            &&& crate::util::trim_of(rsvp.uid@).len() != 0 && crate::util::trim_of(
                rsvp.pwd@,
            ).len() == 0 ==> (r matches Ok(o) && o matches UserOutcome::Reply(resp, mails) && resp
                is UrpBlankPassword) && crate::store::same_store(cur, prev)
            &&& crate::util::trim_of(rsvp.uid@).len() != 0 && crate::util::trim_of(
                rsvp.pwd@,
            ).len() != 0 ==> ({
                ||| (r matches Ok(o) && o matches UserOutcome::Reply(resp, mails) && (resp
                    matches UserResponse::UrpLoggedIn(ld) && (config.send_emails == (mails@.len()
                    == 1)) && ({
                    &&& exists|nu: User|
                        #![auto]
                        cur.users@.contains(nu) && nu.name@ == crate::util::lower_of(
                            rsvp.uid@,
                        ) && nu.hashwd@ == crate::crypto::hash_of(rsvp.pwd@, nu.salt@)
                            && nu.email@ == rsvp.email@ && nu.registration_key is None
                            && nu.active && ld.userid == nu.id
                    &&& !(cur.has_invite(rsvp.invite@))
                    &&& cur.tokens@.len() == prev.tokens@.len() + 1
                    &&& stored_after == Some(cur.tokens@.last().token@)
                })))
                ||| (r is Err)
            })
        })
}

/// The invite-redemption branch of the dispatcher: with an existing name
/// the password must match and the account be active (a pending
/// registration key is cleared); with a fresh name the user is created
/// from the invite.  The invite is single use and deleted either way.
pub fn user_rsvp<T: Tokener, C: Callbacks>(
    store: &mut Store,
    tokener: &mut T,
    config: &Config,
    callbacks: &mut C,
    rsvp: RSVP,
    now: i64,
) -> (r: Result<UserOutcome, Error>)
    requires
        old(store).wf(),
        old(store).next_id < i64::MAX,
    ensures
        final(store).wf(),
        rsvp_post(
            *old(store),
            *final(store),
            final(tokener).stored(),
            *config,
            rsvp,
            now,
            r,
        ),
{
    let invite = match crate::dbfun::read_userinvite(store, config.mainsite.as_str(), &rsvp.invite) {
        Ok(Some(i)) => i,
        Ok(None) => {
            return Err(Error::NotFound);
        },
        Err(e) => {
            return Err(e);
        },
    };
    match crate::dbfun::read_user_by_name(store, rsvp.uid.as_str()) {
        Ok(userdata) => {
            let ghost gi = choose|i: int|
                0 <= i < old(store).users@.len() && #[trigger] old(store).users@[i] == userdata
                    && crate::util::lower_of(userdata.name@) == crate::util::lower_of(rsvp.uid@);
            proof {
                assert forall|i: int|
                    0 <= i < old(store).users@.len() && crate::util::lower_of(
                        #[trigger] old(store).users@[i].name@,
                    ) == crate::util::lower_of(rsvp.uid@) implies old(store).users@[i]
                    == userdata by {
                    lemma_lname_unique(*old(store), i, gi);
                }
            }
            if !crate::dbfun::verify_password(&userdata, rsvp.pwd.as_str()) {
                return Ok(UserOutcome::Reply(UserResponse::UrpInvalidUserOrPwd, Vec::new()));
            }
            if !userdata.active {
                return Ok(UserOutcome::Reply(UserResponse::UrpAccountDeactivated, Vec::new()));
            }
            if userdata.registration_key.is_some() {
                let idx = match store.find_user_idx_by_id(userdata.id) {
                    Some(i) => i,
                    None => {
                        return Err(Error::NotFound);
                    },
                };
                proof {
                    if (idx as int) < gi {
                        assert(old(store).users@[idx as int].id.as_int() != old(
                            store,
                        ).users@[gi].id.as_int());
                    } else if gi < idx as int {
                        assert(old(store).users@[gi].id.as_int() != old(store).users@[
                            idx as int
                        ].id.as_int());
                    }
                    crate::store::lemma_name_key_free(*store, idx as int);
                }
                let stored = &store.users[idx];
                let newu = User {
                    id: stored.id,
                    uuid: stored.uuid.clone(),
                    name: stored.name.clone(),
                    hashwd: stored.hashwd.clone(),
                    salt: stored.salt.clone(),
                    email: stored.email.clone(),
                    registration_key: None,
                    admin: stored.admin,
                    active: stored.active,
                    remote_url: stored.remote_url.clone(),
                    cookie: stored.cookie.clone(),
                };
                store.set_user_row(idx, newu);
            }
            match crate::dbfun::remove_userinvite(store, &rsvp.invite) {
                Ok(()) => {},
                Err(e) => {
                    return Err(e);
                },
            }
            match log_user_in(store, tokener, callbacks, userdata.id, now) {
                Ok(ld) => Ok(UserOutcome::Reply(UserResponse::UrpLoggedIn(ld), Vec::new())),
                Err(e) => Err(e),
            }
        },
        Err(_) => {
            if crate::util::is_blank(rsvp.uid.as_str()) {
                return Ok(UserOutcome::Reply(UserResponse::UrpBlankUserName, Vec::new()));
            }
            if crate::util::is_blank(rsvp.pwd.as_str()) {
                return Ok(UserOutcome::Reply(UserResponse::UrpBlankPassword, Vec::new()));
            }
            let rd = RegistrationData {
                uid: rsvp.uid.clone(),
                pwd: rsvp.pwd.clone(),
                email: rsvp.email.clone(),
                remote_url: String::new(),
            };
            let uid = match crate::dbfun::new_user(
                store,
                &rd,
                None,
                invite.data.clone(),
                false,
                None,
                Some(invite.creator),
                None,
                None,
                None,
                callbacks,
            ) {
                Ok(u) => u,
                Err(e) => {
                    return Err(e);
                },
            };
            let ghost gu = choose|u: User|
                crate::dbfun::store_push_user(*old(store), *store, u)
                    && crate::dbfun::user_row_of(u, rd, None, false, None, None);
            proof {
                assert(store.users@.last() == gu);
            }
            match crate::dbfun::remove_userinvite(store, &rsvp.invite) {
                Ok(()) => {},
                Err(e) => {
                    return Err(e);
                },
            }
            let mut mails: Vec<EmailRequest> = Vec::new();
            if config.send_emails {
                mails.push(
                    EmailRequest::RsvpNotification {
                        email: rsvp.email.clone(),
                        uid: rsvp.uid.clone(),
                    },
                );
            }
            match log_user_in(store, tokener, callbacks, uid, now) {
                Ok(ld) => {
                    proof {
                        let users = store.users@;
                        let j0 = choose|j: int|
                            0 <= j < users.len() && (#[trigger] users[j]).id == uid
                                && crate::dbfun::login_data_of(users[j], ld);
                        let n = users.len() - 1;
                        if j0 < n {
                            assert(0 <= old(store).users@[j0].id.as_int() < old(store).next_id);
                        }
                        assert(users.contains(gu)) by {
                            assert(users[users.len() - 1] == gu);
                        }
                        assert(crate::dbfun::login_data_of(gu, ld));
                    }
                    Ok(UserOutcome::Reply(UserResponse::UrpLoggedIn(ld), mails))
                },
                Err(e) => Err(e),
            }
        },
    }
}

/// Completes a remote registration once the host has posted the login to
/// the remote peer: a successful remote login creates the local account,
/// bound to the remote identity, and logs the caller in.
pub fn user_interface_remote_register<T: Tokener, C: Callbacks>(
    store: &mut Store,
    tokener: &mut T,
    callbacks: &mut C,
    rd: RegistrationData,
    cookie: Option<String>,
    response: UserResponse,
    now: i64,
) -> (r: Result<UserOutcome, Error>)
    requires
        old(store).wf(),
        old(store).next_id < i64::MAX,
    ensures
        final(store).wf(),
        !(response is UrpLoggedIn) ==> (r matches Ok(o) && o matches UserOutcome::Reply(
            resp,
            mails,
        ) && resp is UrpRemoteRegistrationFailed && mails@.len() == 0) && crate::store::same_store(
            *final(store),
            *old(store),
        ),
        response matches UserResponse::UrpLoggedIn(ld) ==> (r is Err || (r matches Ok(o) && o
            matches UserOutcome::Reply(resp, mails) && resp is UrpLoggedIn && (exists|u: User|
            #![auto]
            final(store).users@.contains(u) && crate::dbfun::user_row_of(
                u,
                rd,
                None,
                false,
                final(store).users@.last().remote_url,
                final(store).users@.last().cookie,
            ) && u.uuid@ == ld.uuid@))),
{
    let ld = match response {
        UserResponse::UrpLoggedIn(ld) => ld,
        _ => {
            return Ok(
                UserOutcome::Reply(UserResponse::UrpRemoteRegistrationFailed, Vec::new()),
            );
        },
    };
    let uid = match crate::dbfun::new_user(
        store,
        &rd,
        None,
        None,
        false,
        Some(ld.uuid.clone()),
        None,
        Some(rd.remote_url.clone()),
        None,
        cookie,
        callbacks,
    ) {
        Ok(u) => u,
        Err(e) => {
            return Err(e);
        },
    };
    let ghost gu = choose|u: User|
        #![auto]
        crate::dbfun::store_push_user(*old(store), *store, u) && crate::dbfun::user_row_of(
            u,
            rd,
            None,
            false,
            Some(rd.remote_url),
            cookie,
        ) && u.uuid@ == ld.uuid@;
    proof {
        assert(store.users@.last() == gu);
        assert(store.users@.contains(gu)) by {
            assert(store.users@[store.users@.len() - 1] == gu);
        }
    }
    match log_user_in(store, tokener, callbacks, uid, now) {
        Ok(ld2) => {
            proof {
                assert(store.users@.contains(gu)) by {
                    assert(store.users@[store.users@.len() - 1] == gu);
                }
            }
            Ok(UserOutcome::Reply(UserResponse::UrpLoggedIn(ld2), Vec::new()))
        },
        Err(e) => Err(e),
    }
}


/// Applies the host's veto decision on a user deletion: `true` cascades
/// the delete and reports the user deleted, `false` leaves the store
/// untouched and reports it not deleted.  This is the verified half of
/// the transaction around the veto hook.
pub fn apply_delete_decision(store: &mut Store, uid: UserId, proceed: bool) -> (r: (
    AdminResponse,
    Vec<EmailRequest>,
))
    requires
        old(store).wf(),
    ensures
        final(store).wf(),
        r.1@.len() == 0,
        proceed ==> ({
            &&& r.0 matches AdminResponse::ArpUserDeleted(u2) && u2 == uid
            &&& final(store).users@ == crate::dbfun::users_without(old(store).users@, uid)
            &&& final(store).tokens@ == crate::dbfun::tokens_without(old(store).tokens@, uid)
            &&& final(store).newemails@ == crate::dbfun::newemails_without(
                old(store).newemails@,
                uid,
            )
            &&& final(store).newpasswords@ == crate::dbfun::newpasswords_without(
                old(store).newpasswords@,
                uid,
            )
            &&& final(store).invites@ == old(store).invites@
            &&& final(store).next_id == old(store).next_id
            &&& !(final(store).has_uid(uid.as_int()))
        }),
        !proceed ==> (r.0 matches AdminResponse::ArpUserNotDeleted(u2) && u2 == uid)
            && crate::store::same_store(*final(store), *old(store)),
{
    if proceed {
        match crate::dbfun::delete_user(store, uid) {
            Ok(()) => {},
            Err(_) => {},
        }
        (AdminResponse::ArpUserDeleted(uid), Vec::new())
    } else {
        (AdminResponse::ArpUserNotDeleted(uid), Vec::new())
    }
}

/// Everything the admin operations promise, relative to the store they
/// start from: the response, the mails and the store change of each
/// operation, with success owed wherever no host hook and no random
/// draw decides.
pub open spec fn admin_post(
    prev: Store,
    cur: Store,
    user: User,
    config: Config,
    msg: AdminRequest,
    now: i64,
    r: Result<(AdminResponse, Vec<EmailRequest>), Error>,
) -> bool {
    &&& cur.next_id == prev.next_id
    &&& match msg {
        AdminRequest::ArqGetUsers => ({
            &&& crate::store::same_store(cur, prev)
            &&& (r is Ok)
            &&& r matches Ok(p) ==> (p.0 matches AdminResponse::ArpUsers(v) && p.1@.len() == 0
                && v@.len() <= prev.users@.len() && (forall|k: int|
                0 <= k < v@.len() ==> crate::dbfun::some_user_matches(
                    prev.users@,
                    #[trigger] v@[k],
                )) && (exists|m: Seq<int>|
                #![trigger m.len()]
                m.len() == v@.len() && (forall|k: int|
                    0 <= k < m.len() ==> 0 <= #[trigger] m[k] < prev.users@.len()
                        && crate::dbfun::login_data_of(prev.users@[m[k]], v@[k])) && (forall|
                    k1: int,
                    k2: int,
                |
                    0 <= k1 < k2 < m.len() ==> #[trigger] m[k1] < #[trigger] m[k2])))
        }),
        AdminRequest::ArqDeleteUser(uid) => ({
            &&& r matches Ok(p) ==> p.1@.len() == 0 && ({
                ||| (p.0 matches AdminResponse::ArpUserDeleted(u2) && u2 == uid && ({
                    &&& cur.users@ == crate::dbfun::users_without(prev.users@, uid)
                    &&& cur.tokens@ == crate::dbfun::tokens_without(prev.tokens@, uid)
                    &&& cur.newemails@ == crate::dbfun::newemails_without(prev.newemails@, uid)
                    &&& cur.newpasswords@ == crate::dbfun::newpasswords_without(
                        prev.newpasswords@,
                        uid,
                    )
                    &&& cur.invites@ == prev.invites@
                    &&& !(cur.has_uid(uid.as_int()))
                }))
                ||| (p.0 matches AdminResponse::ArpUserNotDeleted(u2) && u2 == uid
                    && crate::store::same_store(cur, prev))
            })
            &&& r is Err ==> crate::store::same_store(cur, prev)
        }),
        AdminRequest::ArqUpdateUser(ld) => ({
            &&& cur.tokens@ == prev.tokens@
            &&& cur.newemails@ == prev.newemails@
            &&& cur.newpasswords@ == prev.newpasswords@
            &&& cur.invites@ == prev.invites@
            &&& ((r matches Err(e) && e == Error::NotFound) <==> !prev.has_uid(
                ld.userid.as_int(),
            ))
            &&& ((r matches Err(e) && e == Error::Conflict) <==> prev.has_uid(ld.userid.as_int())
                && (exists|j: int|
                0 <= j < prev.users@.len() && (#[trigger] prev.users@[j]).id != ld.userid
                    && crate::util::lower_of(prev.users@[j].name@) == crate::util::lower_of(
                    ld.name@,
                )))
            &&& (r is Ok <==> prev.has_uid(ld.userid.as_int()) && !(exists|j: int|
                0 <= j < prev.users@.len() && (#[trigger] prev.users@[j]).id != ld.userid
                    && crate::util::lower_of(prev.users@[j].name@) == crate::util::lower_of(
                    ld.name@,
                )))
            &&& r is Err ==> cur.users@ == prev.users@
            &&& r matches Ok(p) ==> (p.0 matches AdminResponse::ArpUserUpdated(uld)
                && uld.userid == ld.userid && p.1@.len() == 0 && (exists|i: int|
                0 <= i < prev.users@.len() && (#[trigger] prev.users@[i]).id == ld.userid
                    && cur.users@ == prev.users@.update(i, cur.users@[i])
                    && crate::dbfun::login_fields_updated(prev.users@[i], ld, cur.users@[i])
                    && crate::dbfun::login_data_of(cur.users@[i], uld)))
        }),
        AdminRequest::ArqGetInvite(gi) => ({
            &&& cur.users@ == prev.users@
            &&& cur.tokens@ == prev.tokens@
            &&& cur.newemails@ == prev.newemails@
            &&& cur.newpasswords@ == prev.newpasswords@
            &&& ((r is Ok) || (r matches Err(e) && e == Error::Conflict))
            &&& r is Err ==> cur.invites@ == prev.invites@
            &&& r matches Ok(p) ==> ({
                &&& p.0 matches AdminResponse::ArpUserInvite(inv) && inv.creator == user.id
                    && inv.token@ == cur.invites@.last().token@ && inv.url@ == config.mainsite@
                    + "/invite/"@ + inv.token@ && p.1@.len() == 0
                &&& cur.invites@.len() == prev.invites@.len() + 1
                &&& cur.invites@ == prev.invites@.push(cur.invites@.last())
                &&& cur.invites@.last().creator == user.id
                &&& cur.invites@.last().email.deep_view() == gi.email.deep_view()
                &&& cur.invites@.last().data.deep_view() == gi.data.deep_view()
                &&& cur.invites@.last().tokendate == now
            })
        }),
        AdminRequest::ArqGetPwdReset(uid) => ({
            &&& cur.users@ == prev.users@
            &&& cur.tokens@ == prev.tokens@
            &&& cur.newemails@ == prev.newemails@
            &&& cur.invites@ == prev.invites@
            &&& ((r matches Err(e) && e == Error::NotFound) <==> !prev.has_uid(uid.as_int()))
            &&& prev.has_uid(uid.as_int()) ==> ((r is Ok) || (r matches Err(e) && e
                == Error::Conflict))
            &&& r is Err ==> cur.newpasswords@ == prev.newpasswords@
            &&& r matches Ok(p) ==> ({
                &&& config.send_emails ==> (p.1@[0] matches EmailRequest::Reset {
                    email,
                    name,
                    reset_key,
                } && reset_key@ == cur.newpasswords@.last().token@)
                &&& p.0 matches AdminResponse::ArpPwdReset(pr) && pr.userid == uid && (
                config.send_emails == (p.1@.len() == 1)) && (exists|j: int|
                    0 <= j < prev.users@.len() && (#[trigger] prev.users@[j]).id == uid
                        && pr.url@ == config.mainsite@ + "/reset/"@ + prev.users@[j].name@ + "/"@
                        + cur.newpasswords@.last().token@)
                &&& cur.newpasswords@ == prev.newpasswords@.push(cur.newpasswords@.last())
                &&& cur.newpasswords@.last().user == uid
                &&& cur.newpasswords@.last().tokendate == now
            })
        }),
    }
}

/// The privileged operations, reached only through `admin_interface_check`
/// with an admin-flagged caller.  A user deletion is atomic with respect
/// to the host's veto hook: either the hook allows it and the user row
/// with all its dependent rows goes, or nothing changes at all.
pub fn admin_interface<C: Callbacks>(
    store: &mut Store,
    config: &Config,
    user: &User,
    callbacks: &mut C,
    msg: AdminRequest,
    now: i64,
) -> (r: Result<(AdminResponse, Vec<EmailRequest>), Error>)
    requires
        old(store).wf(),
    ensures
        final(store).wf(),
        admin_post(*old(store), *final(store), *user, *config, msg, now, r),
{
    match msg {
        AdminRequest::ArqGetUsers => {
            match crate::dbfun::read_users(store, callbacks) {
                Ok(v) => Ok((AdminResponse::ArpUsers(v), Vec::new())),
                Err(e) => Err(e),
            }
        },
        AdminRequest::ArqDeleteUser(uid) => {
            let proceed = match callbacks.on_delete_user(uid) {
                Ok(b) => b,
                Err(e) => {
                    return Err(e);
                },
            };
            Ok(apply_delete_decision(store, uid, proceed))
        },
        AdminRequest::ArqUpdateUser(ld) => {
            match crate::dbfun::update_login_data(store, &ld) {
                Ok(()) => {},
                Err(e) => {
                    return Err(e);
                },
            }
            match crate::dbfun::login_data(store, ld.userid) {
                Ok(uld) => Ok((AdminResponse::ArpUserUpdated(uld), Vec::new())),
                Err(e) => Err(e),
            }
        },
        AdminRequest::ArqGetInvite(gi) => {
            let invite_key = crate::util::new_uuid_string();
            let k2 = invite_key.clone();
            let data2 = gi.data.clone();
            match crate::dbfun::add_userinvite(store, invite_key, gi.email, user.id, gi.data, now) {
                Ok(()) => {},
                Err(e) => {
                    return Err(e);
                },
            }
            let url = String::from_str(config.mainsite.as_str()).concat("/invite/").concat(
                k2.as_str(),
            );
            Ok(
                (
                    AdminResponse::ArpUserInvite(
                        UserInvite { email: None, token: k2, url, data: data2, creator: user.id },
                    ),
                    Vec::new(),
                ),
            )
        },
        AdminRequest::ArqGetPwdReset(uid) => {
            let target = match crate::dbfun::read_user_by_id(store, uid) {
                Ok(u) => u,
                Err(e) => {
                    return Err(e);
                },
            };
            let reset_key = crate::util::new_uuid_string();
            let k2 = reset_key.clone();
            match crate::dbfun::add_newpassword(store, uid, reset_key, now) {
                Ok(()) => {},
                Err(e) => {
                    return Err(e);
                },
            }
            let url = String::from_str(config.mainsite.as_str()).concat("/reset/").concat(
                target.name.as_str(),
            ).concat("/").concat(k2.as_str());
            let mut mails: Vec<EmailRequest> = Vec::new();
            if config.send_emails {
                mails.push(
                    EmailRequest::Reset {
                        email: target.email,
                        name: target.name,
                        reset_key: k2,
                    },
                );
            }
            Ok((AdminResponse::ArpPwdReset(PwdReset { userid: uid, url }), mails))
        },
    }
}

/// Gates every admin operation: the caller's token must resolve to a
/// live user whose admin flag is set.
pub fn admin_interface_check<T: Tokener, C: Callbacks>(
    store: &mut Store,
    tokener: &mut T,
    config: &Config,
    callbacks: &mut C,
    msg: AdminRequest,
    now: i64,
) -> (r: Result<(AdminResponse, Vec<EmailRequest>), Error>)
    requires
        old(store).wf(),
    ensures
        final(store).wf(),
        old(tokener).stored() is None ==> (r matches Ok(p) && p.0 is ArpNotLoggedIn && p.1@.len()
            == 0) && crate::store::same_store(*final(store), *old(store)),
        forall|t: Seq<char>|
            old(tokener).stored() == Some(t) && !crate::dbfun::resolves_ok(
                *old(store),
                t,
                config.login_token_expiration_ms,
                now,
            ) ==> (r matches Ok(p) && p.0 is ArpInvalidUserOrPassword && p.1@.len() == 0)
                && crate::store::same_store(*final(store), *old(store)),
        forall|i: int, j: int|
            #![trigger old(store).tokens@[i], old(store).users@[j]]
            crate::dbfun::token_joins(*old(store), old(store).tokens@[i].token@, i, j) && old(tokener).stored() == Some(old(store).tokens@[i].token@) && crate::dbfun::resolves_ok(
                *old(store),
                old(store).tokens@[i].token@,
                config.login_token_expiration_ms,
                now,
            ) && !old(store).users@[j].admin ==> (r matches Ok(p) && p.0 is ArpAccessDenied),
        forall|i: int, j: int|
            #![trigger old(store).tokens@[i], old(store).users@[j]]
            crate::dbfun::token_joins(*old(store), old(store).tokens@[i].token@, i, j) && old(
                tokener,
            ).stored() == Some(old(store).tokens@[i].token@) && crate::dbfun::resolves_ok(
                *old(store),
                old(store).tokens@[i].token@,
                config.login_token_expiration_ms,
                now,
            ) && old(store).users@[j].admin ==> (exists|mid: Store|
                #![trigger mid.wf()]
                mid.wf() && mid.users@ == old(store).users@ && mid.newemails@ == old(
                    store,
                ).newemails@ && mid.newpasswords@ == old(store).newpasswords@ && mid.invites@
                    == old(store).invites@ && mid.next_id == old(store).next_id && admin_post(
                    mid,
                    *final(store),
                    old(store).users@[j],
                    *config,
                    msg,
                    now,
                    r,
                )),
{
    let tok = match tokener.get() {
        None => {
            return Ok((AdminResponse::ArpNotLoggedIn, Vec::new()));
        },
        Some(t) => t,
    };
    let userdata = match crate::dbfun::read_user_by_token_api(
        store,
        &tok,
        config.login_token_expiration_ms,
        config.regen_login_tokens,
        now,
    ) {
        Ok(u) => u,
        Err(_) => {
            return Ok((AdminResponse::ArpInvalidUserOrPassword, Vec::new()));
        },
    };
    proof {
        let gj = choose|i: int, j: int|
            #![trigger old(store).tokens@[i], old(store).users@[j]]
            crate::dbfun::token_joins(*old(store), tok@, i, j) && userdata == old(store).users@[j];
        assert forall|i: int, j: int|
            crate::dbfun::token_joins(*old(store), tok@, i, j) implies old(store).users@[j]
            == userdata by {
            crate::dbfun::lemma_join_unique(*old(store), tok@, i, j, gj.0, gj.1);
        }
    }
    if userdata.admin {
        let ghost mid = *store;
        let r = admin_interface(store, config, &userdata, callbacks, msg, now);
        proof {
            assert(mid.wf());
            assert(admin_post(mid, *store, userdata, *config, msg, now, r));
        }
        r
    } else {
        Ok((AdminResponse::ArpAccessDenied, Vec::new()))
    }
}


/// The row after a completed registration: only the pending key is gone.
pub open spec fn registration_cleared(stored: User, new: User) -> bool {
    &&& new.id == stored.id
    &&& new.uuid@ == stored.uuid@
    &&& new.name@ == stored.name@
    &&& new.hashwd@ == stored.hashwd@
    &&& new.salt@ == stored.salt@
    &&& new.email@ == stored.email@
    &&& new.registration_key is None
    &&& new.admin == stored.admin
    &&& new.active == stored.active
    &&& new.remote_url.deep_view() == stored.remote_url.deep_view()
    &&& new.cookie.deep_view() == stored.cookie.deep_view()
}

/// Completes a registration from the mailed confirmation link: when the
/// key matches the user's pending registration key, the key is cleared.
pub fn register(store: &mut Store, uid: &str, key: &String) -> (r: Result<(), Error>)
    requires
        old(store).wf(),
    ensures
        final(store).wf(),
        final(store).next_id == old(store).next_id,
        final(store).tokens@ == old(store).tokens@,
        final(store).newemails@ == old(store).newemails@,
        final(store).newpasswords@ == old(store).newpasswords@,
        final(store).invites@ == old(store).invites@,
        (r matches Err(e) && e == Error::NotFound) <==> !old(store).has_name_key(
            crate::util::lower_of(uid@),
        ),
        r is Err ==> final(store).users@ == old(store).users@,
        forall|i: int|
            0 <= i < old(store).users@.len() && crate::util::lower_of(
                #[trigger] old(store).users@[i].name@,
            ) == crate::util::lower_of(uid@) ==> ({
                let u = old(store).users@[i];
                &&& u.registration_key.deep_view() != Some(key@) ==> (r matches Err(e) && e
                    == Error::InvalidCredentials) && final(store).users@ == old(store).users@
                &&& u.registration_key.deep_view() == Some(key@) ==> (r is Ok) && final(store).users@ == old(store).users@.update(i, final(store).users@[i])
                    && registration_cleared(u, final(store).users@[i])
            }),
{
    let lname = crate::util::lowercase(uid);
    let idx = match store.find_user_idx_by_lname(&lname) {
        None => {
            return Err(Error::NotFound);
        },
        Some(i) => i,
    };
    proof {
        assert forall|i: int|
            0 <= i < old(store).users@.len() && crate::util::lower_of(
                #[trigger] old(store).users@[i].name@,
            ) == crate::util::lower_of(uid@) implies i == idx as int by {
            lemma_lname_unique(*old(store), i, idx as int);
        }
    }
    let matches_key = match &store.users[idx].registration_key {
        Some(k) => *k == *key,
        None => false,
    };
    if !matches_key {
        return Err(Error::InvalidCredentials);
    }
    let stored = &store.users[idx];
    let newu = User {
        id: stored.id,
        uuid: stored.uuid.clone(),
        name: stored.name.clone(),
        hashwd: stored.hashwd.clone(),
        salt: stored.salt.clone(),
        email: stored.email.clone(),
        registration_key: None,
        admin: stored.admin,
        active: stored.active,
        remote_url: stored.remote_url.clone(),
        cookie: stored.cookie.clone(),
    };
    proof {
        crate::store::lemma_name_key_free(*store, idx as int);
    }
    store.set_user_row(idx, newu);
    Ok(())
}

/// Applies a confirmed email change from the mailed link: when the token
/// is known and within its window, the address moves into the user row
/// and the pending row is deleted.  On an expired token nothing changes.
pub fn new_email(
    store: &mut Store,
    uid: &str,
    token: &String,
    email_token_expiration_ms: i64,
    now: i64,
) -> (r: Result<String, Error>)
    requires
        old(store).wf(),
    ensures
        final(store).wf(),
        final(store).next_id == old(store).next_id,
        final(store).tokens@ == old(store).tokens@,
        final(store).newpasswords@ == old(store).newpasswords@,
        final(store).invites@ == old(store).invites@,
        (!old(store).has_name_key(crate::util::lower_of(uid@))) ==> (r matches Err(e) && e
            == Error::NotFound) && final(store).users@ == old(store).users@ && final(store).newemails@ == old(store).newemails@,
        r is Err ==> final(store).users@ == old(store).users@ && final(store).newemails@ == old(store).newemails@,
        forall|i: int, k: int|
            #![trigger old(store).users@[i], old(store).newemails@[k]]
            0 <= i < old(store).users@.len() && crate::util::lower_of(old(store).users@[i].name@)
                == crate::util::lower_of(uid@) && 0 <= k < old(store).newemails@.len() && old(store).newemails@[k].user == old(store).users@[i].id && old(store).newemails@[k].token@
                == token@ ==> ({
                let u = old(store).users@[i];
                let row = old(store).newemails@[k];
                &&& now - row.tokendate > email_token_expiration_ms ==> (r matches Err(e) && e
                    == Error::TokenExpired)
                &&& now - row.tokendate <= email_token_expiration_ms ==> ({
                    &&& r matches Ok(em) && em@ == row.email@
                    &&& final(store).users@ == old(store).users@.update(
                        i,
                        final(store).users@[i],
                    )
                    &&& final(store).users@[i].email@ == row.email@
                    &&& final(store).users@[i].id == u.id
                    &&& final(store).users@[i].name@ == u.name@
                    &&& final(store).users@[i].hashwd@ == u.hashwd@
                    &&& !(final(store).has_newemail(u.id.as_int(), token@))
                })
            }),
{
    let lname = crate::util::lowercase(uid);
    let idx = match store.find_user_idx_by_lname(&lname) {
        None => {
            return Err(Error::NotFound);
        },
        Some(i) => i,
    };
    proof {
        assert forall|i: int|
            0 <= i < old(store).users@.len() && crate::util::lower_of(
                #[trigger] old(store).users@[i].name@,
            ) == crate::util::lower_of(uid@) implies i == idx as int by {
            lemma_lname_unique(*old(store), i, idx as int);
        }
    }
    let user_id = store.users[idx].id;
    let kidx = match store.find_newemail_idx(user_id, token) {
        None => {
            return Err(Error::NotFound);
        },
        Some(k) => k,
    };
    proof {
        assert forall|k: int|
            0 <= k < old(store).newemails@.len() && (#[trigger] old(store).newemails@[k]).user
                == user_id && old(store).newemails@[k].token@ == token@ implies k
            == kidx as int by {
            if k < kidx as int {
                assert(!(old(store).newemails@[k].user == old(store).newemails@[kidx as int].user
                    && old(store).newemails@[k].token@ == old(store).newemails@[kidx as int].token@));
            } else if (kidx as int) < k {
                assert(!(old(store).newemails@[kidx as int].user == old(store).newemails@[k].user
                    && old(store).newemails@[kidx as int].token@ == old(store).newemails@[k].token@));
            }
        }
    }
    let tokendate = store.newemails[kidx].tokendate;
    if (now as i128) - (tokendate as i128) > (email_token_expiration_ms as i128) {
        return Err(Error::TokenExpired);
    }
    let em = store.newemails[kidx].email.clone();
    let stored = &store.users[idx];
    let newu = User {
        id: stored.id,
        uuid: stored.uuid.clone(),
        name: stored.name.clone(),
        hashwd: stored.hashwd.clone(),
        salt: stored.salt.clone(),
        email: em.clone(),
        registration_key: stored.registration_key.clone(),
        admin: stored.admin,
        active: stored.active,
        remote_url: stored.remote_url.clone(),
        cookie: stored.cookie.clone(),
    };
    proof {
        crate::store::lemma_name_key_free(*store, idx as int);
    }
    store.set_user_row(idx, newu);
    match crate::dbfun::remove_newemail(store, user_id, token) {
        Ok(()) => {},
        Err(e) => {
            return Err(e);
        },
    }
    Ok(em)
}


/// Everything the login branch promises: how the reply, the store and
/// the token carrier relate to the request for every kind of account.
pub open spec fn login_post(
    prev: Store,
    cur: Store,
    stored_after: Option<Seq<char>>,
    login: Login,
    r: Result<UserOutcome, Error>,
    now: i64,
) -> bool {
    &&& !prev.has_name_key(crate::util::lower_of(login.uid@)) ==> (r matches Ok(o) && o
        matches UserOutcome::Reply(resp, mails) && resp is UrpInvalidUserOrPwd && mails@.len()
        == 0) && crate::store::same_store(cur, prev)
    &&& forall|i: int|
        0 <= i < prev.users@.len() && crate::util::lower_of(#[trigger] prev.users@[i].name@)
            == crate::util::lower_of(login.uid@) ==> ({
            let u = prev.users@[i];
            &&& u.registration_key is Some ==> (r matches Ok(o) && o matches UserOutcome::Reply(
                resp,
                mails,
            ) && resp is UrpUnregisteredUser) && crate::store::same_store(cur, prev)
            &&& u.registration_key is None && !u.active ==> (r matches Ok(o) && o
                matches UserOutcome::Reply(resp, mails) && resp is UrpAccountDeactivated)
                && crate::store::same_store(cur, prev)
            &&& u.registration_key is None && u.active && !crate::dbfun::pwd_matches(
                u,
                login.pwd@,
            ) ==> (r matches Ok(o) && o matches UserOutcome::Reply(resp, mails) && resp
                is UrpInvalidUserOrPwd) && crate::store::same_store(cur, prev)
            &&& u.registration_key is None && u.active && crate::dbfun::pwd_matches(
                u,
                login.pwd@,
            ) ==> ({
                ||| (r matches Ok(o) && o matches UserOutcome::Reply(resp, mails) && mails@.len()
                    == 0 && (resp matches UserResponse::UrpLoggedIn(ld)
                    && crate::dbfun::login_data_of(u, ld)) && ({
                    &&& cur.tokens@ == prev.tokens@.push(cur.tokens@.last())
                    &&& cur.tokens@.last().user == u.id
                    &&& cur.tokens@.last().tokendate == now
                    &&& cur.tokens@.last().prevtoken is None
                    &&& stored_after == Some(cur.tokens@.last().token@)
                    &&& cur.users@ == prev.users@
                }))
                ||| (r is Err && crate::store::same_store(cur, prev))
            })
        })
}

/// The login branch of the dispatcher: verify the password of an active,
/// fully registered account and issue a fresh token.  Unknown names and
/// wrong passwords are deliberately answered alike.
pub fn user_login<T: Tokener, C: Callbacks>(
    store: &mut Store,
    tokener: &mut T,
    callbacks: &mut C,
    login: Login,
    now: i64,
) -> (r: Result<UserOutcome, Error>)
    requires
        old(store).wf(),
    ensures
        final(store).wf(),
        login_post(*old(store), *final(store), final(tokener).stored(), login, r, now),
{
    let userdata = match crate::dbfun::read_user_by_name(store, login.uid.as_str()) {
        Ok(u) => u,
        Err(_) => {
            return Ok(UserOutcome::Reply(UserResponse::UrpInvalidUserOrPwd, Vec::new()));
        },
    };
    let ghost gi = choose|i: int|
        0 <= i < old(store).users@.len() && #[trigger] old(store).users@[i] == userdata
            && crate::util::lower_of(userdata.name@) == crate::util::lower_of(login.uid@);
    proof {
        assert forall|i: int|
            0 <= i < old(store).users@.len() && crate::util::lower_of(
                #[trigger] old(store).users@[i].name@,
            ) == crate::util::lower_of(login.uid@) implies old(store).users@[i] == userdata by {
            lemma_lname_unique(*old(store), i, gi);
        }
    }
    if userdata.registration_key.is_some() {
        return Ok(UserOutcome::Reply(UserResponse::UrpUnregisteredUser, Vec::new()));
    }
    if !userdata.active {
        return Ok(UserOutcome::Reply(UserResponse::UrpAccountDeactivated, Vec::new()));
    }
    if !crate::dbfun::verify_password(&userdata, login.pwd.as_str()) {
        return Ok(UserOutcome::Reply(UserResponse::UrpInvalidUserOrPwd, Vec::new()));
    }
    match log_user_in(store, tokener, callbacks, userdata.id, now) {
        Ok(ld) => {
            proof {
                let users = old(store).users@;
                let j0 = choose|j: int|
                    0 <= j < users.len() && (#[trigger] users[j]).id == userdata.id
                        && crate::dbfun::login_data_of(users[j], ld);
                if j0 < gi {
                    assert(users[j0].id.as_int() != users[gi].id.as_int());
                } else if gi < j0 {
                    assert(users[gi].id.as_int() != users[j0].id.as_int());
                }
                assert(crate::dbfun::login_data_of(userdata, ld));
            }
            Ok(UserOutcome::Reply(UserResponse::UrpLoggedIn(ld), Vec::new()))
        },
        Err(e) => Err(e),
    }
}

} // verus!
