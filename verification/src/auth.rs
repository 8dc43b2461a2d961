//! Session keys: a user id and an expiry time, signed with HMAC-SHA256 under
//! a server secret; and the login messages that carry them.

use chrono::DateTime;
use std::time::{Duration, SystemTime, UNIX_EPOCH};
use hmac::{Hmac, Mac};
use sha2::Sha256;
use vstd::bytes::*;
use vstd::prelude::*;

verus! {

/// Earliest UNIX timestamp (seconds) that `chrono` can represent.
pub const MIN_TIMESTAMP: i64 = -8_334_601_228_800i64;

/// Latest UNIX timestamp (seconds) that `chrono` can represent.
pub const MAX_TIMESTAMP: i64 = 8_210_266_876_799i64;

/// How long a fresh session key stays valid: one day, in seconds.
pub const SESSION_KEY_LIFETIME: i64 = 86_400i64;

/// The HMAC-SHA256 tag of `msg` under `key`.
pub uninterp spec fn hmac_sha256(key: Seq<u8>, msg: Seq<u8>) -> Seq<u8>;

/// `Hmac::<Sha256>::new_from_slice`, `Mac::update`, `Mac::finalize`: the
/// HMAC-SHA256 tag of `msg` under `key`, 32 bytes long. HMAC accepts keys of
/// any length, so building the MAC does not fail.
#[verifier::external_body]
fn hmac_sha256_tag(key: &[u8], msg: &[u8]) -> (tag: Vec<u8>)
    ensures
        tag@ == hmac_sha256(key@, msg@),
        tag@.len() == 32,
{
    let mut mac = Hmac::<Sha256>::new_from_slice(key).expect("HMAC can take key of any size");
    mac.update(msg);
    mac.finalize().into_bytes().to_vec()
}

/// `Hmac::<Sha256>::new_from_slice`, `Mac::update`, `Mac::verify_slice`:
/// whether `tag` is exactly the HMAC-SHA256 tag of `msg` under `key`
/// (compared in constant time).
#[verifier::external_body]
fn hmac_sha256_verify(key: &[u8], msg: &[u8], tag: &[u8]) -> (ok: bool)
    ensures
        ok == (tag@ == hmac_sha256(key@, msg@)),
{
    let mut mac = Hmac::<Sha256>::new_from_slice(key).expect("HMAC can take key of any size");
    mac.update(msg);
    mac.verify_slice(tag).is_ok()
}

#[verifier::external_type_specification]
#[verifier::external_body]
pub struct ExSystemTime(SystemTime);

/// `SystemTime::now`: the current time of the system clock. Nothing is
/// stated of it: it depends on the machine.
#[verifier::external_body]
fn system_time_now() -> (t: SystemTime) {
    SystemTime::now()
}

/// `SystemTime::duration_since(UNIX_EPOCH)`: how long after the UNIX epoch
/// `t` lies, or `None` when `t` lies before it. Nothing is stated of the
/// value: `SystemTime` is opaque here.
#[verifier::external_body]
fn duration_since_epoch(t: &SystemTime) -> (d: Option<Duration>) {
    t.duration_since(UNIX_EPOCH).ok()
}

/// `Duration::as_secs`: the whole seconds of `d`. Nothing is stated of the
/// value: `Duration` is opaque here.
#[verifier::external_body]
fn duration_as_secs(d: &Duration) -> (secs: u64) {
    d.as_secs()
}

/// The current time in whole seconds since the UNIX epoch, as `chrono`
/// reads it for `Utc::now`; `None` when the clock lies before the epoch or
/// beyond what `chrono` can represent (where `Utc::now` would panic).
fn utc_now_timestamp() -> (t: Option<i64>)
    ensures
        t matches Some(secs) ==> 0 <= secs <= MAX_TIMESTAMP,
{
    let now = system_time_now();
    match duration_since_epoch(&now) {
        None => None,
        Some(d) => {
            let secs = duration_as_secs(&d);
            if secs <= MAX_TIMESTAMP as u64 {
                Some(secs as i64)
            } else {
                None
            }
        },
    }
}

/// `DateTime::from_timestamp(secs, 0).is_some()`: whether `chrono` can
/// represent the instant `secs` seconds after the UNIX epoch.
#[verifier::external_body]
fn timestamp_is_representable(secs: i64) -> (ok: bool)
    ensures
        ok == (MIN_TIMESTAMP <= secs <= MAX_TIMESTAMP),
{
    DateTime::from_timestamp(secs, 0).is_some()
}

/// What a session key asserts: who the user is and until when.
#[derive(Debug, Clone, Copy, PartialEq, Eq, Structural)]
pub struct SessionKeyBody {
    pub user_id: i32,
    pub expires_at: i64,
}

/// A session key: its body and the signature over it.
#[derive(Debug, Clone)]
pub struct SessionKey {
    pub body: SessionKeyBody,
    pub sign: Vec<u8>,
}

/// The bytes that are signed: the user id, then the expiry, both little-endian.
pub open spec fn spec_mac_payload(body: SessionKeyBody) -> Seq<u8> {
    spec_u32_to_le_bytes(body.user_id as u32) + spec_u64_to_le_bytes(body.expires_at as u64)
}

/// The signature a valid key carries.
pub open spec fn spec_sign(body: SessionKeyBody, key: Seq<u8>) -> Seq<u8> {
    hmac_sha256(key, spec_mac_payload(body))
}

/// Whether a key with this body and signature is genuine under `key`.
pub open spec fn spec_verify(body: SessionKeyBody, sign: Seq<u8>, key: Seq<u8>) -> bool {
    sign == spec_sign(body, key)
}

/// Whether a key expiring at `expires_at` has expired at time `now`: it has
/// when the expiry is out of `chrono`'s range, or not after `now`.
pub open spec fn spec_is_expired(expires_at: i64, now: i64) -> bool {
    !(MIN_TIMESTAMP <= expires_at <= MAX_TIMESTAMP) || expires_at <= now
}

impl SessionKeyBody {
    /// The bytes the signature covers.
    pub fn mac_payload(&self) -> (payload: Vec<u8>)
        ensures
            payload@ == spec_mac_payload(*self),
    {
        let mut payload: Vec<u8> = Vec::new();
        let user_id = u32_to_le_bytes(self.user_id as u32);
        let expires_at = u64_to_le_bytes(self.expires_at as u64);
        payload.extend_from_slice(user_id.as_slice());
        payload.extend_from_slice(expires_at.as_slice());
        assert(payload@ =~= spec_mac_payload(*self));
        payload
    }

    /// The signature of this body under `key`.
    pub fn create_mac(&self, key: &[u8]) -> (tag: Vec<u8>)
        ensures
            tag@ == spec_sign(*self, key@),
            tag@.len() == 32,
    {
        let payload = self.mac_payload();
        hmac_sha256_tag(key, payload.as_slice())
    }
}

impl SessionKey {
    /// A key for `user_id`, valid for one day from `now`, signed with `key`.
    pub fn new_at(user_id: i32, key: &[u8], now: i64) -> (res: SessionKey)
        requires
            now <= MAX_TIMESTAMP - SESSION_KEY_LIFETIME,
        ensures
            res.body.user_id == user_id,
            res.body.expires_at == now + SESSION_KEY_LIFETIME,
            res.sign@ == spec_sign(res.body, key@),
            res.sign@.len() == 32,
    {
        let body = SessionKeyBody { user_id, expires_at: now + SESSION_KEY_LIFETIME };
        let sign = body.create_mac(key);
        SessionKey { body, sign }
    }

    /// A key for `user_id`, valid for one day from `now`, signed with `key`;
    /// `None` when that expiry lies beyond what `chrono` can represent.
    pub fn new_checked_at(user_id: i32, key: &[u8], now: i64) -> (res: Option<SessionKey>)
        ensures
            res is None <==> now > MAX_TIMESTAMP - SESSION_KEY_LIFETIME,
            res matches Some(k) ==> {
                &&& k.body.user_id == user_id
                &&& k.body.expires_at == now + SESSION_KEY_LIFETIME
                &&& k.sign@ == spec_sign(k.body, key@)
                &&& k.sign@.len() == 32
            },
    {
        if now > MAX_TIMESTAMP - SESSION_KEY_LIFETIME {
            return None;
        }
        Some(SessionKey::new_at(user_id, key, now))
    }

    /// A key for `user_id`, valid for one day from the current time, signed
    /// with `key`: what `new_checked_at` gives for the clock's reading.
    /// `None` when the clock cannot be read (it lies before the UNIX epoch or
    /// beyond `chrono`'s range) or the expiry lies beyond `chrono`'s range.
    pub fn new(user_id: i32, key: &[u8]) -> (res: Option<SessionKey>)
        ensures
            res matches Some(k) ==> {
                &&& k.body.user_id == user_id
                &&& SESSION_KEY_LIFETIME <= k.body.expires_at <= MAX_TIMESTAMP
                &&& k.sign@ == spec_sign(k.body, key@)
                &&& k.sign@.len() == 32
            },
    {
        match utc_now_timestamp() {
            None => None,
            Some(now) => SessionKey::new_checked_at(user_id, key, now),
        }
    }

    /// Whether the key has expired at time `now` (seconds since the epoch).
    pub fn is_expired_at(&self, now: i64) -> (res: bool)
        ensures
            res == spec_is_expired(self.body.expires_at, now),
    {
        if !timestamp_is_representable(self.body.expires_at) {
            return true;
        }
        self.body.expires_at <= now
    }

    /// Whether the key has expired at the current time: the answer of
    /// `is_expired_at` for the clock's reading. When the clock cannot be read
    /// (it lies before the UNIX epoch or beyond `chrono`'s range) the key
    /// counts as expired.
    pub fn is_expired(&self) -> (res: bool)
        ensures
            exists|now: i64|
                0 <= now <= MAX_TIMESTAMP && res == spec_is_expired(self.body.expires_at, now),
    {
        match utc_now_timestamp() {
            Some(now) => self.is_expired_at(now),
            None => {
                assert(spec_is_expired(self.body.expires_at, MAX_TIMESTAMP));
                true
            },
        }
    }

    /// Whether the signature is genuine under `key`.
    pub fn verify(&self, key: &[u8]) -> (res: bool)
        ensures
            res == spec_verify(self.body, self.sign@, key@),
    {
        let payload = self.body.mac_payload();
        hmac_sha256_verify(key, payload.as_slice(), self.sign.as_slice())
    }
}

/// Logging in with a session key.
#[derive(Debug, Clone)]
pub struct LoginPayload {
    pub session_key: SessionKey,
}

/// Why a login was refused.
#[derive(Debug, Clone, Copy, PartialEq, Eq, Structural)]
pub enum LoginError {
    /// The session key is malformed.
    InvalidSesssionKey,
    /// The session key has expired.
    SessionKeyExpired,
    /// The user the key names does not exist.
    UserNotFound,
}

/// Asking for a session key with a login and a password.
#[derive(Debug, Clone)]
pub struct GetSessionKeyPayload {
    pub login: String,
    pub password: String,
}

/// A session key, for a known user or for one just registered.
#[derive(Debug, Clone)]
pub enum GetSessionKeyResponse {
    ExistingUser(SessionKey),
    NewUser(SessionKey),
}

/// Why no session key was issued.
#[derive(Debug, Clone, Copy, PartialEq, Eq, Structural)]
pub enum GetSessionKeyError {
    /// A user with this login exists and the password does not match.
    UserAlreadyExists,
    ServerError,
}

#[derive(Debug, Clone, Copy, PartialEq, Eq, Structural)]
pub enum GetCurrentUserError {
    ServerError,
}

#[derive(Debug, Clone, Copy, PartialEq, Eq, Structural)]
pub struct Login {}

#[derive(Debug, Clone, Copy, PartialEq, Eq, Structural)]
pub struct GetSessionKey {}

#[derive(Debug, Clone, Copy, PartialEq, Eq, Structural)]
pub struct GetCurrentUser {}

impl crate::models::common::RPCMethod for Login {
    open spec fn wire_key() -> Seq<char> {
        "Login"@
    }

    fn key() -> (k: &'static str) {
        "Login"
    }
}

impl crate::models::common::RPCMethod for GetSessionKey {
    open spec fn wire_key() -> Seq<char> {
        "GetSessionKey"@
    }

    fn key() -> (k: &'static str) {
        "GetSessionKey"
    }
}

impl crate::models::common::RPCMethod for GetCurrentUser {
    open spec fn wire_key() -> Seq<char> {
        "GetCurrentUser"@
    }

    fn key() -> (k: &'static str) {
        "GetCurrentUser"
    }
}

/// A key signed with `key` verifies under `key`.
pub proof fn lemma_signed_key_verifies(body: SessionKeyBody, key: Seq<u8>)
    ensures
        spec_verify(body, spec_sign(body, key), key),
{
}

/// Distinct bodies are signed over distinct bytes, so a signature for one
/// body is a signature over a different message than any other body's.
pub proof fn lemma_mac_payload_injective(a: SessionKeyBody, b: SessionKeyBody)
    requires
        spec_mac_payload(a) == spec_mac_payload(b),
    ensures
        a == b,
{
    lemma_auto_spec_u32_to_from_le_bytes();
    lemma_auto_spec_u64_to_from_le_bytes();
    let pa = spec_mac_payload(a);
    let pb = spec_mac_payload(b);
    assert(pa.subrange(0, 4) =~= spec_u32_to_le_bytes(a.user_id as u32));
    assert(pb.subrange(0, 4) =~= spec_u32_to_le_bytes(b.user_id as u32));
    assert(pa.subrange(4, 12) =~= spec_u64_to_le_bytes(a.expires_at as u64));
    assert(pb.subrange(4, 12) =~= spec_u64_to_le_bytes(b.expires_at as u64));
    let ua = a.user_id;
    let ub = b.user_id;
    let ea = a.expires_at;
    let eb = b.expires_at;
    assert(ua as u32 == ub as u32 ==> ua == ub) by (bit_vector);
    assert(ea as u64 == eb as u64 ==> ea == eb) by (bit_vector);
}

/// Once expired, a key stays expired at every later time.
pub proof fn lemma_expiry_monotonic(expires_at: i64, now1: i64, now2: i64)
    requires
        spec_is_expired(expires_at, now1),
        now1 <= now2,
    ensures
        spec_is_expired(expires_at, now2),
{
}

/// A fresh key is not expired when it is made.
pub proof fn lemma_fresh_key_not_expired(now: i64)
    requires
        MIN_TIMESTAMP <= now <= MAX_TIMESTAMP - SESSION_KEY_LIFETIME,
    ensures
        !spec_is_expired((now + SESSION_KEY_LIFETIME) as i64, now),
{
}

} // verus!
