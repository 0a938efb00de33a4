use orgauth::crypto::hash_password;
use orgauth::data::admin_settings;
use orgauth::data::{Config, RegistrationData};
use orgauth::dbfun;
use orgauth::endpoints::NoopCallbacks;
use orgauth::store::Store;
use orgauth::util::{
    get_rand_string, naiow, now, salt_string, show_time, token_expired_at,
};

fn purge_config() -> Config {
    Config {
        mainsite: "http://test.example".to_string(),
        appname: "testapp".to_string(),
        emaildomain: "test.example".to_string(),
        admin_email: "admin@test.example".to_string(),
        regen_login_tokens: true,
        login_token_expiration_ms: Some(1000),
        email_token_expiration_ms: 1000,
        reset_token_expiration_ms: 1000,
        invite_token_expiration_ms: 1000,
        open_registration: true,
        send_emails: false,
        non_admin_invite: true,
        remote_registration: false,
    }
}

fn make_user(store: &mut Store, name: &str, pwd: &str) -> orgauth::data::UserId {
    let mut cb = NoopCallbacks {};
    let rd = RegistrationData {
        uid: name.to_string(),
        pwd: pwd.to_string(),
        email: format!("{}@test.example", name),
        remote_url: String::new(),
    };
    dbfun::new_user(store, &rd, None, None, false, None, None, None, None, None, &mut cb).unwrap()
}

#[test]
fn rotation_keeps_the_old_token_for_the_grace_period() {
    let mut store = Store::new();
    let uid = make_user(&mut store, "rotator", "pw");
    let n: i64 = 1_000_000;
    let t0 = "t0-00000000-0000-0000-0000-000000000000".to_string();
    dbfun::add_token(&mut store, uid, t0.clone(), None, None, n).unwrap();
    // a page load rotates the token
    let t1_in = "t1-00000000-0000-0000-0000-000000000000".to_string();
    let (user, rotated) =
        dbfun::read_user_with_token_pageload(&mut store, &t0, true, None, n, t1_in.clone())
            .unwrap();
    assert_eq!(user.id, uid);
    let t1 = rotated.expect("rotation should have issued a fresh token");
    assert_eq!(t1, t1_in);
    // within the grace period the superseded token still resolves
    let u = dbfun::read_user_by_token_api(&mut store, &t0, None, true, n + 5_000).unwrap();
    assert_eq!(u.id, uid);
    // resolving the fresh token within the grace period does not prune
    dbfun::read_user_by_token_api(&mut store, &t1, None, true, n + 5_000).unwrap();
    assert!(store.tokens.iter().any(|t| t.token == t0));
    // strictly after the grace period, resolving the fresh token prunes
    dbfun::read_user_by_token_api(&mut store, &t1, None, true, n + 11_000).unwrap();
    assert!(!store.tokens.iter().any(|t| t.token == t0));
    // and the superseded token no longer resolves
    assert!(dbfun::read_user_by_token_api(&mut store, &t0, None, true, n + 12_000).is_err());
}

#[test]
fn chains_collapse_to_one_live_token() {
    let mut store = Store::new();
    let uid = make_user(&mut store, "chained", "pw");
    let n: i64 = 2_000_000;
    let t0 = "c0-00000000-0000-0000-0000-000000000000".to_string();
    dbfun::add_token(&mut store, uid, t0.clone(), None, None, n).unwrap();
    // two sequential rotations, each after the previous grace elapsed
    let t1 = "c1-00000000-0000-0000-0000-000000000000".to_string();
    dbfun::read_user_with_token_pageload(&mut store, &t0, true, None, n, t1.clone()).unwrap();
    let t2 = "c2-00000000-0000-0000-0000-000000000000".to_string();
    dbfun::read_user_with_token_pageload(&mut store, &t1, true, None, n + 11_000, t2.clone())
        .unwrap();
    assert_eq!(store.tokens.len(), 3);
    // an api call with the live tip after the grace period collapses the
    // whole ancestor chain
    dbfun::read_user_by_token_api(&mut store, &t2, None, true, n + 22_000).unwrap();
    assert_eq!(store.tokens.len(), 1);
    assert_eq!(store.tokens[0].token, t2);
    assert!(store.tokens[0].prevtoken.is_none());
}

#[test]
fn expiration_boundaries() {
    // false one instant before the window closes, true one after
    assert_eq!(token_expired_at(100, 1000, 1099), false);
    assert_eq!(token_expired_at(100, 1000, 1100), false);
    assert_eq!(token_expired_at(100, 1000, 1101), true);
    // a token from the future counts as expired
    assert_eq!(token_expired_at(100, 1000, 999), true);
}

#[test]
fn expired_tokens_are_refused() {
    let mut store = Store::new();
    let uid = make_user(&mut store, "sleepy", "pw");
    let n: i64 = 3_000_000;
    let t = "0000-sleepy-token-0000".to_string();
    dbfun::add_token(&mut store, uid, t.clone(), None, None, n).unwrap();
    assert!(dbfun::read_user_by_token_api(&mut store, &t, Some(1000), false, n + 500).is_ok());
    assert!(dbfun::read_user_by_token_api(&mut store, &t, Some(1000), false, n + 1_500).is_err());
}

#[test]
fn purge_tokens_sweeps_all_kinds() {
    let mut store = Store::new();
    let uid = make_user(&mut store, "dusty", "pw");
    let config = purge_config();
    let n: i64 = 5_000_000;
    let old = n - 10_000;
    dbfun::add_token(&mut store, uid, "old-token".to_string(), None, None, old).unwrap();
    dbfun::add_token(&mut store, uid, "new-token".to_string(), None, None, n).unwrap();
    dbfun::add_newemail(&mut store, uid, "em-tok".to_string(), "e@x".to_string(), old).unwrap();
    dbfun::add_newpassword(&mut store, uid, "np-tok".to_string(), old).unwrap();
    dbfun::add_userinvite(&mut store, "inv-tok".to_string(), None, uid, None, old).unwrap();
    dbfun::purge_tokens(&mut store, &config, n).unwrap();
    assert_eq!(store.tokens.len(), 1);
    assert_eq!(store.tokens[0].token, "new-token");
    assert_eq!(store.newemails.len(), 0);
    assert_eq!(store.newpasswords.len(), 0);
    assert_eq!(store.invites.len(), 0);
}

#[test]
fn phantom_users_get_placeholder_credentials() {
    let mut store = Store::new();
    let mut cb = NoopCallbacks {};
    let name = "Remoter".to_string();
    let uid = dbfun::phantom_user(
        &mut store,
        &name,
        "phantom-uuid-0000".to_string(),
        Some("extra".to_string()),
        true,
        &mut cb,
    )
    .unwrap();
    let u = dbfun::read_user_by_id(&store, uid).unwrap();
    assert_eq!(u.name, "remoter");
    assert_eq!(u.hashwd, "phantom");
    assert_eq!(u.registration_key.as_deref(), Some("phantom"));
    assert!(!u.admin);
}

#[test]
fn digest_has_a_known_value() {
    // the sha256 hex digest of "hello" with an empty salt
    assert_eq!(
        hash_password("hello", ""),
        "2cf24dba5fb0a30e26e83b2ac5b9e29e1b161e5c1fa7425e73043362938b9824"
    );
    // the salt changes the digest
    assert_ne!(hash_password("hello", "x"), hash_password("hello", ""));
}

#[test]
fn random_strings_have_the_requested_length() {
    assert_eq!(get_rand_string(5).chars().count(), 5);
    assert_eq!(get_rand_string(0).chars().count(), 0);
    assert_eq!(salt_string().chars().count(), 10);
    // two draws almost surely differ; equality would mean the source is
    // handing back a constant
    assert_ne!(get_rand_string(32), get_rand_string(32));
}

#[test]
fn clock_readings_are_sane() {
    let ms = now().unwrap();
    assert!(ms > 0);
    let rounded = naiow().unwrap();
    assert_eq!(rounded % 1000, 0);
    assert!(rounded <= ms);
}

#[test]
fn show_time_formats_the_epoch() {
    assert_eq!(show_time(0).as_deref(), Some("1970-01-01T00:00:00"));
    assert_eq!(show_time(86_400).as_deref(), Some("1970-01-02T00:00:00"));
}

#[test]
fn admin_settings_mirrors_the_config() {
    let config = purge_config();
    let s = admin_settings(&config);
    assert_eq!(s.open_registration, config.open_registration);
    assert_eq!(s.send_emails, config.send_emails);
    assert_eq!(s.non_admin_invite, config.non_admin_invite);
    assert_eq!(s.remote_registration, config.remote_registration);
}

#[test]
fn user_ids_wrap_row_ids() {
    let uid = orgauth::data::UserId::from(7i64);
    assert_eq!(*uid.to_i64(), 7);
}
