use orgauth::util::{is_token_expired, now};

#[test]
fn test_expiration() {
    match now() {
        Ok(now) => {
            assert_eq!(is_token_expired(100, now), false);
            assert_eq!(is_token_expired(100, now - 200), true);
            assert_eq!(is_token_expired(100, now + 200), true);
        }
        Err(_) => assert_eq!(2, 4),
    }
}
