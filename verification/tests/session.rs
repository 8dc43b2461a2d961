use hazel::auth::{
    GetCurrentUser, GetSessionKey, Login, SessionKey, SessionKeyBody, MAX_TIMESTAMP, MIN_TIMESTAMP,
    SESSION_KEY_LIFETIME,
};
use hazel::models::common::RPCMethod;

const KEY: &[u8] = b"secret";

const EXPECTED_SIGN: [u8; 32] = [
    219, 101, 7, 249, 7, 171, 194, 102, 120, 89, 11, 253, 216, 190, 141, 43, 1, 127, 43, 90, 88, 2,
    126, 101, 75, 235, 51, 194, 97, 67, 93, 60,
];

#[test]
fn mac_payload_is_little_endian_id_then_expiry() {
    let body = SessionKeyBody { user_id: 42, expires_at: 1_700_086_400 };
    assert_eq!(body.mac_payload(), vec![42, 0, 0, 0, 128, 66, 85, 101, 0, 0, 0, 0]);
    let negative = SessionKeyBody { user_id: -1, expires_at: -2 };
    assert_eq!(
        negative.mac_payload(),
        vec![255, 255, 255, 255, 254, 255, 255, 255, 255, 255, 255, 255]
    );
}

#[test]
fn create_mac_is_hmac_sha256() {
    let body = SessionKeyBody { user_id: 42, expires_at: 1_700_086_400 };
    assert_eq!(body.create_mac(KEY), EXPECTED_SIGN.to_vec());
}

#[test]
fn new_at_signs_for_one_day() {
    let key = SessionKey::new_at(42, KEY, 1_700_000_000);
    assert_eq!(key.body.user_id, 42);
    assert_eq!(key.body.expires_at, 1_700_000_000 + SESSION_KEY_LIFETIME);
    assert_eq!(key.sign, EXPECTED_SIGN.to_vec());
    assert!(key.verify(KEY));
}

#[test]
fn verify_rejects_other_key_and_tampering() {
    let key = SessionKey::new_at(7, KEY, 1000);
    assert!(key.verify(KEY));
    assert!(!key.verify(b"other"));
    let mut forged = key.clone();
    forged.body.user_id = 8;
    assert!(!forged.verify(KEY));
    let mut extended = key.clone();
    extended.body.expires_at += 1;
    assert!(!extended.verify(KEY));
    let mut bad_sign = key.clone();
    bad_sign.sign[0] ^= 1;
    assert!(!bad_sign.verify(KEY));
    let mut short_sign = key;
    short_sign.sign.pop();
    assert!(!short_sign.verify(KEY));
}

#[test]
fn is_expired_at_boundaries() {
    let key = SessionKey::new_at(1, KEY, 100);
    let end = 100 + SESSION_KEY_LIFETIME;
    assert!(!key.is_expired_at(end - 1));
    assert!(key.is_expired_at(end));
    assert!(key.is_expired_at(end + 1));
}

#[test]
fn unrepresentable_expiry_counts_as_expired() {
    let far = SessionKey { body: SessionKeyBody { user_id: 1, expires_at: MAX_TIMESTAMP + 1 }, sign: vec![] };
    assert!(far.is_expired_at(MIN_TIMESTAMP));
    assert!(far.is_expired());
    let early = SessionKey { body: SessionKeyBody { user_id: 1, expires_at: MIN_TIMESTAMP - 1 }, sign: vec![] };
    assert!(early.is_expired_at(MIN_TIMESTAMP - 2));
    let last = SessionKey { body: SessionKeyBody { user_id: 1, expires_at: MAX_TIMESTAMP }, sign: vec![] };
    assert!(!last.is_expired_at(0));
    assert!(!last.is_expired());
    let first = SessionKey { body: SessionKeyBody { user_id: 1, expires_at: MIN_TIMESTAMP }, sign: vec![] };
    assert!(first.is_expired_at(MIN_TIMESTAMP));
    assert!(first.is_expired());
}

#[test]
fn new_checked_at_refuses_expiry_beyond_range() {
    let last = MAX_TIMESTAMP - SESSION_KEY_LIFETIME;
    let key = SessionKey::new_checked_at(9, KEY, last).expect("expiry is the last representable second");
    assert_eq!(key.body.expires_at, MAX_TIMESTAMP);
    assert_eq!(key.sign.len(), 32);
    assert!(key.verify(KEY));
    assert!(SessionKey::new_checked_at(9, KEY, last + 1).is_none());
    let at = SessionKey::new_checked_at(42, KEY, 1_700_000_000).unwrap();
    assert_eq!(at.sign, EXPECTED_SIGN.to_vec());
}

#[test]
fn fresh_key_is_valid_now() {
    let key = SessionKey::new(5, KEY).expect("the clock is within range");
    assert_eq!(key.body.user_id, 5);
    assert!(key.verify(KEY));
    assert!(!key.is_expired());
    assert_eq!(key.sign.len(), 32);
}

#[test]
fn endpoint_keys() {
    assert_eq!(Login::key(), "Login");
    assert_eq!(GetSessionKey::key(), "GetSessionKey");
    assert_eq!(GetCurrentUser::key(), "GetCurrentUser");
}
