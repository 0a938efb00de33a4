use orgauth::data::{
    AdminRequest, AdminResponse, AuthedRequest, ChangeEmail, ChangePassword, Config, GetInvite,
    Login, RegistrationData, ResetPassword, SetPassword, UserId, UserRequest, UserResponse, RSVP,
};
use orgauth::dbfun;
use orgauth::endpoints::{
    admin_interface_check, new_email, register, user_interface, Callbacks, NoopCallbacks, Tokener,
    UserOutcome, UuidTokener,
};
use orgauth::error::Error;
use orgauth::store::Store;
use orgauth::util::now;

fn test_config(open_registration: bool, send_emails: bool) -> Config {
    Config {
        mainsite: "http://test.example".to_string(),
        appname: "testapp".to_string(),
        emaildomain: "test.example".to_string(),
        admin_email: "admin@test.example".to_string(),
        regen_login_tokens: true,
        login_token_expiration_ms: Some(1000 * 60 * 60),
        email_token_expiration_ms: 1000 * 60 * 60,
        reset_token_expiration_ms: 1000 * 60 * 60,
        invite_token_expiration_ms: 1000 * 60 * 60,
        open_registration,
        send_emails,
        non_admin_invite: true,
        remote_registration: false,
    }
}

fn register_user(
    store: &mut Store,
    config: &Config,
    tokener: &mut UuidTokener,
    name: &str,
    pwd: &str,
) -> UserResponse {
    let mut cb = NoopCallbacks {};
    let rd = RegistrationData {
        uid: name.to_string(),
        pwd: pwd.to_string(),
        email: format!("{}@test.example", name),
        remote_url: String::new(),
    };
    let n = now().unwrap();
    match user_interface(store, tokener, config, &mut cb, UserRequest::UrqRegister(rd), n) {
        Ok(UserOutcome::Reply(resp, _mails)) => resp,
        other => panic!("unexpected outcome: {:?}", other),
    }
}

fn login_user(
    store: &mut Store,
    config: &Config,
    tokener: &mut UuidTokener,
    name: &str,
    pwd: &str,
) -> UserResponse {
    let mut cb = NoopCallbacks {};
    let login = Login { uid: name.to_string(), pwd: pwd.to_string() };
    let n = now().unwrap();
    match user_interface(store, tokener, config, &mut cb, UserRequest::UrqLogin(login), n) {
        Ok(UserOutcome::Reply(resp, _mails)) => resp,
        other => panic!("unexpected outcome: {:?}", other),
    }
}

#[test]
fn register_alice_logs_in_directly() {
    // open registration without a confirmation step answers with an
    // immediate logged-in state carrying a fresh token
    let mut store = Store::new();
    let config = test_config(true, false);
    let mut tokener = UuidTokener { uuid: None };
    let resp = register_user(&mut store, &config, &mut tokener, "Alice", "correct-horse");
    match resp {
        UserResponse::UrpLoggedIn(ld) => {
            assert_eq!(ld.name, "alice");
            assert!(ld.active);
            assert!(!ld.admin);
        }
        other => panic!("expected UrpLoggedIn, got {:?}", other),
    }
    let token = tokener.uuid.clone().expect("token should be stored");
    assert_eq!(token.chars().count(), 36);
    assert_eq!(store.tokens.len(), 1);
}

#[test]
fn register_with_emails_sends_registration() {
    let mut store = Store::new();
    let config = test_config(true, true);
    let mut tokener = UuidTokener { uuid: None };
    let mut cb = NoopCallbacks {};
    let rd = RegistrationData {
        uid: "carol".to_string(),
        pwd: "pw".to_string(),
        email: "carol@test.example".to_string(),
        remote_url: String::new(),
    };
    let n = now().unwrap();
    match user_interface(&mut store, &mut tokener, &config, &mut cb, UserRequest::UrqRegister(rd), n)
    {
        Ok(UserOutcome::Reply(UserResponse::UrpRegistrationSent, mails)) => {
            assert_eq!(mails.len(), 2);
        }
        other => panic!("expected UrpRegistrationSent, got {:?}", other),
    }
    // the user is not yet fully registered: login answers UnregisteredUser
    let resp = login_user(&mut store, &config, &mut tokener, "carol", "pw");
    assert!(matches!(resp, UserResponse::UrpUnregisteredUser));
}

#[test]
fn registration_closed_is_refused() {
    let mut store = Store::new();
    let config = test_config(false, false);
    let mut tokener = UuidTokener { uuid: None };
    let mut cb = NoopCallbacks {};
    let rd = RegistrationData {
        uid: "zed".to_string(),
        pwd: "pw".to_string(),
        email: "z@test.example".to_string(),
        remote_url: String::new(),
    };
    let n = now().unwrap();
    let r = user_interface(&mut store, &mut tokener, &config, &mut cb, UserRequest::UrqRegister(rd), n);
    assert!(matches!(r, Err(Error::RegistrationClosed)));
}

#[test]
fn blank_name_and_password_are_rejected() {
    let mut store = Store::new();
    let config = test_config(true, false);
    let mut tokener = UuidTokener { uuid: None };
    let resp = register_user(&mut store, &config, &mut tokener, "   ", "pw");
    assert!(matches!(resp, UserResponse::UrpBlankUserName));
    let resp = register_user(&mut store, &config, &mut tokener, "dave", "   ");
    assert!(matches!(resp, UserResponse::UrpBlankPassword));
    assert_eq!(store.users.len(), 0);
}

#[test]
fn duplicate_name_is_a_conflict_case_insensitively() {
    let mut store = Store::new();
    let config = test_config(true, false);
    let mut tokener = UuidTokener { uuid: None };
    let resp = register_user(&mut store, &config, &mut tokener, "Bob", "pw1");
    assert!(matches!(resp, UserResponse::UrpLoggedIn(_)));
    // registering the same name again, in different case, hits the
    // already-registered account
    let resp = register_user(&mut store, &config, &mut tokener, "BOB", "pw2");
    assert!(matches!(resp, UserResponse::UrpUserExists));
    // inserting a duplicate row directly fails with a conflict
    let mut cb = NoopCallbacks {};
    let rd = RegistrationData {
        uid: "bob".to_string(),
        pwd: "pw3".to_string(),
        email: "b@test.example".to_string(),
        remote_url: String::new(),
    };
    let r = dbfun::new_user(
        &mut store, &rd, None, None, false, None, None, None, None, None, &mut cb,
    );
    assert!(matches!(r, Err(Error::Conflict)));
    assert_eq!(store.users.len(), 1);
}

#[test]
fn password_round_trip() {
    let mut store = Store::new();
    let config = test_config(true, false);
    let mut tokener = UuidTokener { uuid: None };
    register_user(&mut store, &config, &mut tokener, "erin", "first-pwd");
    let user = dbfun::read_user_by_name(&store, "erin").unwrap();
    assert!(dbfun::verify_password(&user, "first-pwd"));
    assert!(!dbfun::verify_password(&user, "other-pwd"));
    // the stored hash is a digest, not the raw password
    assert_ne!(user.hashwd, "first-pwd");
    // after a password change the new password verifies and the old
    // one does not
    let cp = ChangePassword { oldpwd: "first-pwd".to_string(), newpwd: "second-pwd".to_string() };
    dbfun::change_password(&mut store, user.id, &cp).unwrap();
    let user = dbfun::read_user_by_name(&store, "erin").unwrap();
    assert!(dbfun::verify_password(&user, "second-pwd"));
    assert!(!dbfun::verify_password(&user, "first-pwd"));
}

#[test]
fn login_with_wrong_password_is_invalid_credentials() {
    // an existing active, fully-registered user with a bad password gets
    // UrpInvalidUserOrPwd, not UrpUnregisteredUser
    let mut store = Store::new();
    let config = test_config(true, false);
    let mut tokener = UuidTokener { uuid: None };
    register_user(&mut store, &config, &mut tokener, "frank", "right-pwd");
    let resp = login_user(&mut store, &config, &mut tokener, "frank", "wrong-pwd");
    assert!(matches!(resp, UserResponse::UrpInvalidUserOrPwd));
}

#[test]
fn login_with_unknown_name_is_invalid_credentials() {
    let mut store = Store::new();
    let config = test_config(true, false);
    let mut tokener = UuidTokener { uuid: None };
    let resp = login_user(&mut store, &config, &mut tokener, "nobody", "pwd");
    assert!(matches!(resp, UserResponse::UrpInvalidUserOrPwd));
}

#[test]
fn deactivated_account_cannot_log_in() {
    let mut store = Store::new();
    let config = test_config(true, false);
    let mut tokener = UuidTokener { uuid: None };
    register_user(&mut store, &config, &mut tokener, "gina", "pwd");
    let mut user = dbfun::read_user_by_name(&store, "gina").unwrap();
    user.active = false;
    dbfun::update_user(&mut store, &user).unwrap();
    let resp = login_user(&mut store, &config, &mut tokener, "gina", "pwd");
    assert!(matches!(resp, UserResponse::UrpAccountDeactivated));
}

#[test]
fn idempotent_logout() {
    let mut store = Store::new();
    let config = test_config(true, false);
    let mut tokener = UuidTokener { uuid: None };
    let mut cb = NoopCallbacks {};
    register_user(&mut store, &config, &mut tokener, "hank", "pwd");
    let n = now().unwrap();
    let r1 = user_interface(&mut store, &mut tokener, &config, &mut cb, UserRequest::UrqLogout, n);
    assert!(matches!(
        r1,
        Ok(UserOutcome::Reply(UserResponse::UrpLoggedOut, _))
    ));
    assert!(tokener.uuid.is_none());
    let r2 = user_interface(&mut store, &mut tokener, &config, &mut cb, UserRequest::UrqLogout, n);
    assert!(matches!(
        r2,
        Ok(UserOutcome::Reply(UserResponse::UrpLoggedOut, _))
    ));
    assert!(tokener.uuid.is_none());
}

#[test]
fn set_password_with_stale_reset_token_fails_and_keeps_the_row() {
    let mut store = Store::new();
    let config = test_config(true, false);
    let mut tokener = UuidTokener { uuid: None };
    let mut cb = NoopCallbacks {};
    register_user(&mut store, &config, &mut tokener, "iris", "old-pwd");
    let user = dbfun::read_user_by_name(&store, "iris").unwrap();
    let n = now().unwrap();
    // a reset issued longer ago than the window
    let stale = n - config.reset_token_expiration_ms - 1000;
    let reset_key = "11111111-2222-3333-4444-555555555555".to_string();
    dbfun::add_newpassword(&mut store, user.id, reset_key.clone(), stale).unwrap();
    let sp = SetPassword {
        uid: "iris".to_string(),
        newpwd: "new-pwd".to_string(),
        reset_key: reset_key.clone(),
    };
    let r = user_interface(
        &mut store,
        &mut tokener,
        &config,
        &mut cb,
        UserRequest::UrqSetPassword(sp),
        n,
    );
    assert!(matches!(
        r,
        Ok(UserOutcome::Reply(UserResponse::UrpServerError(_), _))
    ));
    // the pending-reset row is untouched, not consumed
    assert!(dbfun::read_newpassword(&store, user.id, &reset_key).is_ok());
    // and the password did not change
    let user = dbfun::read_user_by_name(&store, "iris").unwrap();
    assert!(dbfun::verify_password(&user, "old-pwd"));
}

#[test]
fn set_password_with_fresh_reset_token_succeeds() {
    let mut store = Store::new();
    let config = test_config(true, false);
    let mut tokener = UuidTokener { uuid: None };
    let mut cb = NoopCallbacks {};
    register_user(&mut store, &config, &mut tokener, "jane", "old-pwd");
    let user = dbfun::read_user_by_name(&store, "jane").unwrap();
    let n = now().unwrap();
    let reset_key = "aaaaaaaa-bbbb-cccc-dddd-eeeeeeeeeeee".to_string();
    dbfun::add_newpassword(&mut store, user.id, reset_key.clone(), n).unwrap();
    let sp = SetPassword {
        uid: "jane".to_string(),
        newpwd: "new-pwd".to_string(),
        reset_key: reset_key.clone(),
    };
    let r = user_interface(
        &mut store,
        &mut tokener,
        &config,
        &mut cb,
        UserRequest::UrqSetPassword(sp),
        n,
    );
    assert!(matches!(
        r,
        Ok(UserOutcome::Reply(UserResponse::UrpSetPasswordAck, _))
    ));
    // the row is consumed and the new password verifies
    assert!(dbfun::read_newpassword(&store, user.id, &reset_key).is_err());
    let user = dbfun::read_user_by_name(&store, "jane").unwrap();
    assert!(dbfun::verify_password(&user, "new-pwd"));
}

#[test]
fn reset_password_for_unknown_user_errs() {
    let mut store = Store::new();
    let config = test_config(true, false);
    let mut tokener = UuidTokener { uuid: None };
    let mut cb = NoopCallbacks {};
    let rp = ResetPassword { uid: "ghost".to_string() };
    let n = now().unwrap();
    let r = user_interface(
        &mut store,
        &mut tokener,
        &config,
        &mut cb,
        UserRequest::UrqResetPassword(rp),
        n,
    );
    assert!(matches!(r, Err(Error::NotFound)));
}

#[test]
fn rsvp_with_existing_name_consumes_the_invite() {
    let mut store = Store::new();
    let config = test_config(true, false);
    let mut tokener = UuidTokener { uuid: None };
    let mut cb = NoopCallbacks {};
    register_user(&mut store, &config, &mut tokener, "kate", "pw");
    let creator = dbfun::read_user_by_name(&store, "kate").unwrap().id;
    let n = now().unwrap();
    let invite_token = "99999999-8888-7777-6666-555555555555".to_string();
    dbfun::add_userinvite(&mut store, invite_token.clone(), None, creator, None, n).unwrap();
    let rsvp = RSVP {
        uid: "kate".to_string(),
        pwd: "pw".to_string(),
        email: "kate@test.example".to_string(),
        invite: invite_token.clone(),
    };
    let r = user_interface(
        &mut store,
        &mut tokener,
        &config,
        &mut cb,
        UserRequest::UrqRSVP(rsvp.clone()),
        n,
    );
    assert!(matches!(
        r,
        Ok(UserOutcome::Reply(UserResponse::UrpLoggedIn(_), _))
    ));
    // the invite is gone; redeeming it again reports NotFound
    let r2 = user_interface(
        &mut store,
        &mut tokener,
        &config,
        &mut cb,
        UserRequest::UrqRSVP(rsvp),
        n,
    );
    assert!(matches!(r2, Err(Error::NotFound)));
}

#[test]
fn rsvp_wrong_password_keeps_the_invite() {
    let mut store = Store::new();
    let config = test_config(true, false);
    let mut tokener = UuidTokener { uuid: None };
    let mut cb = NoopCallbacks {};
    register_user(&mut store, &config, &mut tokener, "lena", "pw");
    let creator = dbfun::read_user_by_name(&store, "lena").unwrap().id;
    let n = now().unwrap();
    let invite_token = "12121212-3434-5656-7878-909090909090".to_string();
    dbfun::add_userinvite(&mut store, invite_token.clone(), None, creator, None, n).unwrap();
    let rsvp = RSVP {
        uid: "lena".to_string(),
        pwd: "bad".to_string(),
        email: "l@test.example".to_string(),
        invite: invite_token.clone(),
    };
    let r = user_interface(
        &mut store,
        &mut tokener,
        &config,
        &mut cb,
        UserRequest::UrqRSVP(rsvp),
        n,
    );
    assert!(matches!(
        r,
        Ok(UserOutcome::Reply(UserResponse::UrpInvalidUserOrPwd, _))
    ));
    assert_eq!(store.invites.len(), 1);
}

#[test]
fn rsvp_with_fresh_name_creates_the_user() {
    let mut store = Store::new();
    let config = test_config(true, false);
    let mut tokener = UuidTokener { uuid: None };
    let mut cb = NoopCallbacks {};
    register_user(&mut store, &config, &mut tokener, "mona", "pw");
    let creator = dbfun::read_user_by_name(&store, "mona").unwrap().id;
    let n = now().unwrap();
    let invite_token = "abcdabcd-abcd-abcd-abcd-abcdabcdabcd".to_string();
    dbfun::add_userinvite(&mut store, invite_token.clone(), None, creator, None, n).unwrap();
    let rsvp = RSVP {
        uid: "newbie".to_string(),
        pwd: "np".to_string(),
        email: "n@test.example".to_string(),
        invite: invite_token,
    };
    let r = user_interface(
        &mut store,
        &mut tokener,
        &config,
        &mut cb,
        UserRequest::UrqRSVP(rsvp),
        n,
    );
    assert!(matches!(
        r,
        Ok(UserOutcome::Reply(UserResponse::UrpLoggedIn(_), _))
    ));
    assert!(dbfun::read_user_by_name(&store, "newbie").is_ok());
    assert_eq!(store.invites.len(), 0);
}

#[test]
fn read_invite_round_trip() {
    let mut store = Store::new();
    let config = test_config(true, false);
    let mut tokener = UuidTokener { uuid: None };
    let mut cb = NoopCallbacks {};
    register_user(&mut store, &config, &mut tokener, "nora", "pw");
    let creator = dbfun::read_user_by_name(&store, "nora").unwrap().id;
    let n = now().unwrap();
    let tok = "fedcfedc-1111-2222-3333-444444444444".to_string();
    dbfun::add_userinvite(
        &mut store,
        tok.clone(),
        Some("x@test.example".to_string()),
        creator,
        Some("payload".to_string()),
        n,
    )
    .unwrap();
    let r = user_interface(
        &mut store,
        &mut tokener,
        &config,
        &mut cb,
        UserRequest::UrqReadInvite(tok.clone()),
        n,
    );
    match r {
        Ok(UserOutcome::Reply(UserResponse::UrpInvite(inv), _)) => {
            assert_eq!(inv.token, tok);
            assert_eq!(inv.url, format!("http://test.example/invite/{}", tok));
            assert_eq!(inv.data.as_deref(), Some("payload"));
        }
        other => panic!("expected invite, got {:?}", other),
    }
    let r2 = user_interface(
        &mut store,
        &mut tokener,
        &config,
        &mut cb,
        UserRequest::UrqReadInvite("no-such-token".to_string()),
        n,
    );
    assert!(matches!(r2, Err(Error::NotFound)));
}

#[test]
fn authed_change_password_needs_a_token() {
    let mut store = Store::new();
    let config = test_config(true, false);
    let mut tokener = UuidTokener { uuid: None };
    let mut cb = NoopCallbacks {};
    let n = now().unwrap();
    let cp = ChangePassword { oldpwd: "a".to_string(), newpwd: "b".to_string() };
    let r = user_interface(
        &mut store,
        &mut tokener,
        &config,
        &mut cb,
        UserRequest::UrqAuthedRequest(AuthedRequest::AthChangePassword(cp)),
        n,
    );
    assert!(matches!(
        r,
        Ok(UserOutcome::Reply(UserResponse::UrpNotLoggedIn, _))
    ));
}

#[test]
fn authed_change_password_and_email() {
    let mut store = Store::new();
    let config = test_config(true, false);
    let mut tokener = UuidTokener { uuid: None };
    let mut cb = NoopCallbacks {};
    register_user(&mut store, &config, &mut tokener, "olga", "pw-one");
    let n = now().unwrap();
    let cp = ChangePassword { oldpwd: "pw-one".to_string(), newpwd: "pw-two".to_string() };
    let r = user_interface(
        &mut store,
        &mut tokener,
        &config,
        &mut cb,
        UserRequest::UrqAuthedRequest(AuthedRequest::AthChangePassword(cp)),
        n,
    );
    assert!(matches!(
        r,
        Ok(UserOutcome::Reply(UserResponse::UrpChangedPassword, _))
    ));
    let user = dbfun::read_user_by_name(&store, "olga").unwrap();
    assert!(dbfun::verify_password(&user, "pw-two"));
    // wrong password on a change-email request is invalid credentials
    let ce = ChangeEmail { pwd: "bad".to_string(), email: "new@test.example".to_string() };
    let r = user_interface(
        &mut store,
        &mut tokener,
        &config,
        &mut cb,
        UserRequest::UrqAuthedRequest(AuthedRequest::AthChangeEmail(ce)),
        n,
    );
    assert!(matches!(r, Err(Error::InvalidCredentials)));
    // with the right password a pending email change is recorded
    let ce = ChangeEmail { pwd: "pw-two".to_string(), email: "new@test.example".to_string() };
    let r = user_interface(
        &mut store,
        &mut tokener,
        &config,
        &mut cb,
        UserRequest::UrqAuthedRequest(AuthedRequest::AthChangeEmail(ce)),
        n,
    );
    assert!(matches!(
        r,
        Ok(UserOutcome::Reply(UserResponse::UrpChangedEmail, _))
    ));
    assert_eq!(store.newemails.len(), 1);
    // the stored account email is unchanged until confirmed
    let user = dbfun::read_user_by_name(&store, "olga").unwrap();
    assert_eq!(user.email, "olga@test.example");
    // confirming through the mailed link applies it and consumes the row
    let token = store.newemails[0].token.clone();
    let em = new_email(&mut store, "olga", &token, config.email_token_expiration_ms, n).unwrap();
    assert_eq!(em, "new@test.example");
    let user = dbfun::read_user_by_name(&store, "olga").unwrap();
    assert_eq!(user.email, "new@test.example");
    assert_eq!(store.newemails.len(), 0);
}

#[test]
fn registration_confirmation_clears_the_key() {
    let mut store = Store::new();
    let config = test_config(true, true);
    let mut tokener = UuidTokener { uuid: None };
    let mut cb = NoopCallbacks {};
    let rd = RegistrationData {
        uid: "pete".to_string(),
        pwd: "pw".to_string(),
        email: "p@test.example".to_string(),
        remote_url: String::new(),
    };
    let n = now().unwrap();
    let r = user_interface(&mut store, &mut tokener, &config, &mut cb, UserRequest::UrqRegister(rd), n);
    assert!(matches!(
        r,
        Ok(UserOutcome::Reply(UserResponse::UrpRegistrationSent, _))
    ));
    let user = dbfun::read_user_by_name(&store, "pete").unwrap();
    let key = user.registration_key.clone().expect("pending key");
    // a wrong key is rejected
    let bad = "not-the-key".to_string();
    assert!(matches!(
        register(&mut store, "pete", &bad),
        Err(Error::InvalidCredentials)
    ));
    // the mailed key completes the registration
    register(&mut store, "pete", &key).unwrap();
    let user = dbfun::read_user_by_name(&store, "pete").unwrap();
    assert!(user.registration_key.is_none());
    // and login works now
    let resp = login_user(&mut store, &config, &mut tokener, "pete", "pw");
    assert!(matches!(resp, UserResponse::UrpLoggedIn(_)));
}

struct VetoCallbacks {
    allow: bool,
}

impl Callbacks for VetoCallbacks {
    fn on_new_user(
        &mut self,
        _rd: &RegistrationData,
        _data: Option<String>,
        _remote_data: Option<String>,
        _creator: Option<UserId>,
        _uid: UserId,
    ) -> Result<(), Error> {
        Ok(())
    }

    fn extra_login_data(&mut self, _uid: UserId) -> Result<Option<String>, Error> {
        Ok(None)
    }

    fn on_delete_user(&mut self, _uid: UserId) -> Result<bool, Error> {
        Ok(self.allow)
    }
}

fn make_admin(store: &mut Store, name: &str) {
    let mut user = dbfun::read_user_by_name(store, name).unwrap();
    user.admin = true;
    dbfun::update_user(store, &user).unwrap();
}

#[test]
fn admin_delete_respects_the_veto() {
    let mut store = Store::new();
    let config = test_config(true, false);
    let mut admin_tok = UuidTokener { uuid: None };
    register_user(&mut store, &config, &mut admin_tok, "root", "adminpw");
    make_admin(&mut store, "root");
    login_user(&mut store, &config, &mut admin_tok, "root", "adminpw");
    let mut victim_tok = UuidTokener { uuid: None };
    register_user(&mut store, &config, &mut victim_tok, "victim", "pw");
    let victim = dbfun::read_user_by_name(&store, "victim").unwrap();
    let n = now().unwrap();
    // the veto hook answers false: everything stays
    let mut veto = VetoCallbacks { allow: false };
    let r = admin_interface_check(
        &mut store,
        &mut admin_tok,
        &config,
        &mut veto,
        AdminRequest::ArqDeleteUser(victim.id),
        n,
    )
    .unwrap();
    assert!(matches!(r.0, AdminResponse::ArpUserNotDeleted(_)));
    assert!(dbfun::read_user_by_name(&store, "victim").is_ok());
    assert!(store.tokens.iter().any(|t| t.user == victim.id));
    // the veto hook answers true: the user row and all dependent rows go
    let mut allow = VetoCallbacks { allow: true };
    let r = admin_interface_check(
        &mut store,
        &mut admin_tok,
        &config,
        &mut allow,
        AdminRequest::ArqDeleteUser(victim.id),
        n,
    )
    .unwrap();
    assert!(matches!(r.0, AdminResponse::ArpUserDeleted(_)));
    assert!(dbfun::read_user_by_name(&store, "victim").is_err());
    assert!(!store.tokens.iter().any(|t| t.user == victim.id));
    assert!(!store.newpasswords.iter().any(|t| t.user == victim.id));
    assert!(!store.newemails.iter().any(|t| t.user == victim.id));
}

#[test]
fn admin_gate_refuses_outsiders() {
    let mut store = Store::new();
    let config = test_config(true, false);
    let mut cb = NoopCallbacks {};
    let n = now().unwrap();
    // no token at all
    let mut anon = UuidTokener { uuid: None };
    let r = admin_interface_check(&mut store, &mut anon, &config, &mut cb, AdminRequest::ArqGetUsers, n)
        .unwrap();
    assert!(matches!(r.0, AdminResponse::ArpNotLoggedIn));
    // a token that resolves to a non-admin
    let mut tok = UuidTokener { uuid: None };
    register_user(&mut store, &config, &mut tok, "pleb", "pw");
    let r = admin_interface_check(&mut store, &mut tok, &config, &mut cb, AdminRequest::ArqGetUsers, n)
        .unwrap();
    assert!(matches!(r.0, AdminResponse::ArpAccessDenied));
    // a token that resolves to nothing
    let mut bad = UuidTokener { uuid: Some("bogus-token".to_string()) };
    let r = admin_interface_check(&mut store, &mut bad, &config, &mut cb, AdminRequest::ArqGetUsers, n)
        .unwrap();
    assert!(matches!(r.0, AdminResponse::ArpInvalidUserOrPassword));
}

#[test]
fn admin_listing_and_update() {
    let mut store = Store::new();
    let config = test_config(true, false);
    let mut admin_tok = UuidTokener { uuid: None };
    let mut cb = NoopCallbacks {};
    register_user(&mut store, &config, &mut admin_tok, "boss", "pw");
    make_admin(&mut store, "boss");
    login_user(&mut store, &config, &mut admin_tok, "boss", "pw");
    let mut tok = UuidTokener { uuid: None };
    register_user(&mut store, &config, &mut tok, "worker", "pw");
    let n = now().unwrap();
    let r = admin_interface_check(
        &mut store,
        &mut admin_tok,
        &config,
        &mut cb,
        AdminRequest::ArqGetUsers,
        n,
    )
    .unwrap();
    match r.0 {
        AdminResponse::ArpUsers(v) => assert_eq!(v.len(), 2),
        other => panic!("expected user list, got {:?}", other),
    }
    // rename the worker through the admin update
    let mut ld = dbfun::login_data(&store, dbfun::user_id(&store, "worker").unwrap()).unwrap();
    ld.name = "Drone".to_string();
    let r = admin_interface_check(
        &mut store,
        &mut admin_tok,
        &config,
        &mut cb,
        AdminRequest::ArqUpdateUser(ld),
        n,
    )
    .unwrap();
    assert!(matches!(r.0, AdminResponse::ArpUserUpdated(_)));
    assert!(dbfun::read_user_by_name(&store, "drone").is_ok());
    assert!(dbfun::read_user_by_name(&store, "worker").is_err());
}

#[test]
fn admin_invite_and_password_reset() {
    let mut store = Store::new();
    let config = test_config(true, true);
    let mut admin_tok = UuidTokener { uuid: None };
    let mut cb = NoopCallbacks {};
    let config_noconfirm = test_config(true, false);
    register_user(&mut store, &config_noconfirm, &mut admin_tok, "chief", "pw");
    make_admin(&mut store, "chief");
    login_user(&mut store, &config_noconfirm, &mut admin_tok, "chief", "pw");
    let n = now().unwrap();
    let gi = GetInvite { email: None, data: Some("blob".to_string()) };
    let r = admin_interface_check(
        &mut store,
        &mut admin_tok,
        &config,
        &mut cb,
        AdminRequest::ArqGetInvite(gi),
        n,
    )
    .unwrap();
    match r.0 {
        AdminResponse::ArpUserInvite(inv) => {
            assert_eq!(inv.data.as_deref(), Some("blob"));
            assert_eq!(store.invites.len(), 1);
            assert_eq!(store.invites[0].token, inv.token);
        }
        other => panic!("expected invite, got {:?}", other),
    }
    let target = dbfun::user_id(&store, "chief").unwrap();
    let r = admin_interface_check(
        &mut store,
        &mut admin_tok,
        &config,
        &mut cb,
        AdminRequest::ArqGetPwdReset(target),
        n,
    )
    .unwrap();
    match r.0 {
        AdminResponse::ArpPwdReset(pr) => {
            assert_eq!(pr.userid, target);
            assert_eq!(store.newpasswords.len(), 1);
            // the reset mail is produced, since send_emails is on
            assert_eq!(r.1.len(), 1);
        }
        other => panic!("expected reset, got {:?}", other),
    }
}

#[test]
fn non_admin_invite_flag_gates_get_invite() {
    let mut store = Store::new();
    let mut config = test_config(true, false);
    config.non_admin_invite = false;
    let mut tok = UuidTokener { uuid: None };
    let mut cb = NoopCallbacks {};
    register_user(&mut store, &config, &mut tok, "quinn", "pw");
    let n = now().unwrap();
    let gi = GetInvite { email: None, data: None };
    let r = user_interface(
        &mut store,
        &mut tok,
        &config,
        &mut cb,
        UserRequest::UrqAuthedRequest(AuthedRequest::AthGetInvite(gi)),
        n,
    );
    assert!(matches!(r, Err(Error::AccessDenied)));
    config.non_admin_invite = true;
    let gi = GetInvite { email: None, data: None };
    let r = user_interface(
        &mut store,
        &mut tok,
        &config,
        &mut cb,
        UserRequest::UrqAuthedRequest(AuthedRequest::AthGetInvite(gi)),
        n,
    );
    assert!(matches!(
        r,
        Ok(UserOutcome::Reply(UserResponse::UrpInvite(_), _))
    ));
}

#[test]
fn login_is_case_insensitive() {
    let mut store = Store::new();
    let config = test_config(true, false);
    let mut tokener = UuidTokener { uuid: None };
    register_user(&mut store, &config, &mut tokener, "Alice2", "pw");
    let resp = login_user(&mut store, &config, &mut tokener, "ALICE2", "pw");
    assert!(matches!(resp, UserResponse::UrpLoggedIn(_)));
}

#[test]
fn reregistration_updates_email_and_password() {
    let mut store = Store::new();
    let config = test_config(true, true);
    let mut tokener = UuidTokener { uuid: None };
    // first try: a pending registration with the old address
    let resp = register_user(&mut store, &config, &mut tokener, "sam", "first");
    assert!(matches!(resp, UserResponse::UrpRegistrationSent));
    // second try before confirming: new address and new password stick
    let mut cb = NoopCallbacks {};
    let rd = RegistrationData {
        uid: "sam".to_string(),
        pwd: "second".to_string(),
        email: "sam-new@test.example".to_string(),
        remote_url: String::new(),
    };
    let n = now().unwrap();
    let r = user_interface(&mut store, &mut tokener, &config, &mut cb, UserRequest::UrqRegister(rd), n);
    assert!(matches!(
        r,
        Ok(UserOutcome::Reply(UserResponse::UrpRegistrationSent, _))
    ));
    let user = dbfun::read_user_by_name(&store, "sam").unwrap();
    assert_eq!(user.email, "sam-new@test.example");
    assert!(dbfun::verify_password(&user, "second"));
    assert!(!dbfun::verify_password(&user, "first"));
    // confirming with the pending key completes the registration
    let key = user.registration_key.clone().unwrap();
    register(&mut store, "sam", &key).unwrap();
    let resp = login_user(&mut store, &config, &mut tokener, "sam", "second");
    assert!(matches!(resp, UserResponse::UrpLoggedIn(_)));
}

#[test]
fn rsvp_clears_a_pending_registration_key() {
    let mut store = Store::new();
    let config_confirm = test_config(true, true);
    let config = test_config(true, false);
    let mut tokener = UuidTokener { uuid: None };
    let mut cb = NoopCallbacks {};
    // an unfinished registration holds a pending key
    let resp = register_user(&mut store, &config_confirm, &mut tokener, "tara", "pw");
    assert!(matches!(resp, UserResponse::UrpRegistrationSent));
    let user = dbfun::read_user_by_name(&store, "tara").unwrap();
    assert!(user.registration_key.is_some());
    // redeeming an invite with the same name and password completes it
    let n = now().unwrap();
    let invite_token = "deadbeef-0000-1111-2222-333333333333".to_string();
    dbfun::add_userinvite(&mut store, invite_token.clone(), None, user.id, None, n).unwrap();
    let rsvp = RSVP {
        uid: "tara".to_string(),
        pwd: "pw".to_string(),
        email: "tara@test.example".to_string(),
        invite: invite_token,
    };
    let r = user_interface(
        &mut store,
        &mut tokener,
        &config,
        &mut cb,
        UserRequest::UrqRSVP(rsvp),
        n,
    );
    assert!(matches!(
        r,
        Ok(UserOutcome::Reply(UserResponse::UrpLoggedIn(_), _))
    ));
    let user = dbfun::read_user_by_name(&store, "tara").unwrap();
    assert!(user.registration_key.is_none());
    assert_eq!(store.invites.len(), 0);
}

#[test]
fn admin_update_to_a_taken_name_is_a_conflict() {
    let mut store = Store::new();
    let config = test_config(true, false);
    let mut admin_tok = UuidTokener { uuid: None };
    let mut cb = NoopCallbacks {};
    register_user(&mut store, &config, &mut admin_tok, "lead", "pw");
    make_admin(&mut store, "lead");
    login_user(&mut store, &config, &mut admin_tok, "lead", "pw");
    let mut tok = UuidTokener { uuid: None };
    register_user(&mut store, &config, &mut tok, "other", "pw");
    let n = now().unwrap();
    let mut ld = dbfun::login_data(&store, dbfun::user_id(&store, "other").unwrap()).unwrap();
    ld.name = "LEAD".to_string();
    let r = admin_interface_check(
        &mut store,
        &mut admin_tok,
        &config,
        &mut cb,
        AdminRequest::ArqUpdateUser(ld),
        n,
    );
    assert!(matches!(r, Err(Error::Conflict)));
    // nothing moved
    assert!(dbfun::read_user_by_name(&store, "other").is_ok());
}
