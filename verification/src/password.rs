//! Passwords: hashed with Argon2 into PHC strings when set, checked against
//! them at login.
use vstd::prelude::*;
use crate::text::{to_owned_string, push_str, utf8_len};
use crate::config::Argon2Config;
use crate::storage::{User, check_registration, check_new_password, new_user, with_password_hash};
use password_hash::{PasswordHasher, PasswordVerifier};

verus! {

/// Memory (KiB), passes and lanes of Argon2.
#[derive(Debug, Clone, Copy, PartialEq, Eq, Structural)]
pub struct Argon2Cost {
    pub m_cost: u32,
    pub t_cost: u32,
    pub p_cost: u32,
}

/// Argon2's default memory cost (KiB).
pub const DEFAULT_M_COST: u32 = 19456;
/// Argon2's default number of passes.
pub const DEFAULT_T_COST: u32 = 2;
/// Argon2's default number of lanes.
pub const DEFAULT_P_COST: u32 = 1;

/// Whether Argon2 accepts a cost: at least 8 KiB and 8 KiB per lane, at
/// least one pass, and 1 to 2^24 - 1 lanes.
pub open spec fn cost_accepted(c: Argon2Cost) -> bool {
    &&& c.m_cost >= 8
    &&& c.m_cost >= c.p_cost * 8
    &&& c.t_cost >= 1
    &&& 1 <= c.p_cost <= 0xFF_FFFF
}

/// `argon2::Params::new(m, t, p, None)` succeeds.
///
/// Trusted: the source of `Params::new` refuses exactly the costs that
/// [`cost_accepted`] excludes; it computes `p * 8` in `u32`, so `p` is kept
/// small enough for that product.
#[verifier::external_body]
fn params_accepted(c: Argon2Cost) -> (r: bool)
    requires
        c.p_cost <= 0x1FFF_FFFF,
    ensures
        r == cost_accepted(c),
{
    argon2::Params::new(c.m_cost, c.t_cost, c.p_cost, None).is_ok()
}

/// The cost a configuration asks for, each unset part at Argon2's default;
/// `None` without a configuration or when Argon2 refuses the cost, in which
/// case the default cost is used.
pub fn configured_cost(cfg: Option<Argon2Config>) -> (r: Option<Argon2Cost>)
    requires
        cfg matches Some(a) ==> (match a.parallelism {
            Some(p) => p,
            None => DEFAULT_P_COST,
        }) <= 0x1FFF_FFFF,
    ensures
        match cfg {
            None => r is None,
            Some(a) => {
                let c = Argon2Cost {
                    m_cost: match a.memory_kib { Some(m) => m, None => DEFAULT_M_COST },
                    t_cost: match a.time_cost { Some(t) => t, None => DEFAULT_T_COST },
                    p_cost: match a.parallelism { Some(p) => p, None => DEFAULT_P_COST },
                };
                r == if cost_accepted(c) { Some(c) } else { None }
            },
        },
{
    match cfg {
        None => None,
        Some(a) => {
            let c = Argon2Cost {
                m_cost: match a.memory_kib { Some(m) => m, None => DEFAULT_M_COST },
                t_cost: match a.time_cost { Some(t) => t, None => DEFAULT_T_COST },
                p_cost: match a.parallelism { Some(p) => p, None => DEFAULT_P_COST },
            };
            if params_accepted(c) { Some(c) } else { None }
        },
    }
}

/// The PHC string Argon2id (version 0x13) makes of `password` with `salt`, at
/// `cost` or the default cost.
pub uninterp spec fn argon2_phc(cost: Option<Argon2Cost>, password: Seq<char>, salt: Seq<char>) -> Seq<char>;

/// Whether a string is a well-formed PHC password hash.
pub uninterp spec fn phc_parses(phc: Seq<char>) -> bool;

/// Whether Argon2 accepts `password` against the PHC string `phc`.
pub uninterp spec fn argon2_verifies(password: Seq<char>, phc: Seq<char>) -> bool;

/// A character of the standard Base64 alphabet.
pub open spec fn b64_char(c: char) -> bool {
    ('A' <= c && c <= 'Z') || ('a' <= c && c <= 'z') || ('0' <= c && c <= '9') || c == '+' || c == '/'
}

/// The shape of a salt that `SaltString::generate` makes: sixteen bytes in
/// unpadded Base64, that is 22 characters of the alphabet, the last of which
/// carries no leftover bits.
pub open spec fn generated_salt(s: Seq<char>) -> bool {
    &&& s.len() == 22
    &&& forall|i: int| 0 <= i < 22 ==> b64_char(#[trigger] s[i])
    &&& (s[21] == 'A' || s[21] == 'Q' || s[21] == 'g' || s[21] == 'w')
}

/// A fresh random salt (`SaltString::generate` with the thread's generator).
///
/// Trusted: the salt is random; what holds of every one is its shape, since
/// the source encodes 16 random bytes (`Salt::RECOMMENDED_LENGTH`) with the
/// unpadded standard Base64 encoding.
#[verifier::external_body]
fn new_salt() -> (s: String)
    ensures
        generated_salt(s@),
{
    password_hash::SaltString::generate(&mut rand::thread_rng()).as_str().to_string()
}

/// Hashes `password` with `salt` (`PasswordHasher::hash_password` of Argon2id,
/// version 0x13, at `cost` or, without one, `Argon2::default()`).
///
/// Trusted: the result is named by [`argon2_phc`]; the hash is a PHC string
/// that parses again, and checking the same password against it succeeds,
/// since checking recomputes the hash with the parameters and salt the string
/// records and compares the outputs. It succeeds for a salt of the shape
/// [`new_salt`] makes and a password of at most `0xFFFF_FFFF` bytes: the
/// source refuses only a salt that is not canonical Base64 of 4 to 64
/// characters decoding to at least 8 bytes, a longer password, and costs
/// that `Params::new` refuses. The text of an error is not described.
#[verifier::external_body]
fn argon2_hash(cost: Option<Argon2Cost>, password: &str, salt: &str) -> (r: Result<String, String>)
    requires
        cost matches Some(c) ==> cost_accepted(c),
    ensures
        r matches Ok(h) ==> h@ == argon2_phc(cost, password@, salt@) && phc_parses(h@) && argon2_verifies(password@, h@),
        generated_salt(salt@) && utf8_len(password@) <= 0xFFFF_FFFF ==> r is Ok,
{
    let hasher = match cost {
        Some(c) => argon2::Argon2::new(argon2::Algorithm::Argon2id, argon2::Version::V0x13,
            argon2::Params::new(c.m_cost, c.t_cost, c.p_cost, None).unwrap()),
        None => argon2::Argon2::default(),
    };
    let salt = password_hash::SaltString::from_b64(salt).map_err(|e| e.to_string())?;
    hasher.hash_password(password.as_bytes(), &salt).map(|h| h.to_string()).map_err(|e| e.to_string())
}

/// Checks `password` against the PHC string `hash` (`PasswordHash::new`, then
/// `verify_password` of `Argon2::default()`).
///
/// Trusted: an error comes exactly when the string is not a PHC hash, and
/// its text is not described; otherwise the answer is [`argon2_verifies`].
#[verifier::external_body]
fn argon2_verify(password: &str, hash: &str) -> (r: Result<bool, String>)
    ensures
        r is Ok <==> phc_parses(hash@),
        r matches Ok(b) ==> b == argon2_verifies(password@, hash@),
{
    match password_hash::PasswordHash::new(hash) {
        Ok(parsed) => Ok(argon2::Argon2::default().verify_password(password.as_bytes(), &parsed).is_ok()),
        Err(e) => Err(e.to_string()),
    }
}

fn prefixed(prefix: &str, e: String) -> (r: String)
    ensures
        r@ == prefix@ + e@,
{
    let mut s = to_owned_string(prefix);
    push_str(&mut s, e.as_str());
    s
}

/// Creates the account of a new user with a hashed password: refused for a
/// name shorter than two bytes, then for a name taken; a hashing failure is
/// reported as "Password hash failure: ...".
pub fn register_user(username: &str, password: &str, node_id: Option<&str>, exists: bool, cost: Option<Argon2Cost>, now: i64)
    -> (r: Result<User, String>)
    requires
        cost matches Some(c) ==> cost_accepted(c),
    ensures
        crate::text::utf8_len(username@) < 2 ==> (r matches Err(e) && e@ == "Username too short"@),
        crate::text::utf8_len(username@) >= 2 && exists ==> (r matches Err(e) && e@ == "User already exists"@),
        crate::text::utf8_len(username@) >= 2 && !exists && utf8_len(password@) <= 0xFFFF_FFFF ==> r is Ok,
        r matches Ok(u) ==> {
            &&& crate::text::utf8_len(username@) >= 2 && !exists
            &&& u.username@ == username@
            &&& u.user_level == 1
            &&& u.first_login == now && u.last_login == now
            &&& u.total_messages == 0
            &&& u.password_hash matches Some(h) && phc_parses(h@) && argon2_verifies(password@, h@)
                && (exists|salt: Seq<char>| h@ == #[trigger] argon2_phc(cost, password@, salt))
        },
{
    check_registration(username, exists)?;
    let salt = new_salt();
    let hash = match argon2_hash(cost, password, salt.as_str()) {
        Ok(h) => h,
        Err(e) => return Err(prefixed("Password hash failure: ", e)),
    };
    assert(hash@ == argon2_phc(cost, password@, salt@));
    Ok(new_user(username, node_id, hash, now))
}

/// What checking `password` for `user` gives: no stored hash never matches;
/// a stored hash that is not a PHC string is an error.
pub open spec fn password_check(user: User, password: Seq<char>) -> Option<bool> {
    match user.password_hash {
        None => Some(false),
        Some(h) => if phc_parses(h@) { Some(argon2_verifies(password, h@)) } else { None },
    }
}

/// Whether `password` is the password of `user` (see [`password_check`]); a
/// corrupt stored hash is reported as "Corrupt password hash: ...".
pub fn check_user_password(user: &User, password: &str) -> (r: Result<bool, String>)
    ensures
        match password_check(*user, password@) {
            Some(b) => r == Ok::<bool, String>(b),
            None => r matches Err(e) && (exists|m: Seq<char>| e@ == "Corrupt password hash: "@ + m),
        },
{
    match &user.password_hash {
        None => Ok(false),
        Some(h) => match argon2_verify(password, h.as_str()) {
            Ok(b) => Ok(b),
            Err(e) => {
                let ghost m = e@;
                let s = prefixed("Corrupt password hash: ", e);
                assert(s@ == "Corrupt password hash: "@ + m);
                Err(s)
            },
        },
    }
}

/// Sets a new password of 8 to 128 bytes, hashed, and counts it as activity
/// at `now`.
pub fn update_user_password(user: User, new_password: &str, cost: Option<Argon2Cost>, now: i64) -> (r: Result<User, String>)
    requires
        cost matches Some(c) ==> cost_accepted(c),
    ensures
        crate::text::utf8_len(new_password@) < 8 ==> (r matches Err(e) && e@ == "Password too short (min 8)"@),
        crate::text::utf8_len(new_password@) > 128 ==> (r matches Err(e) && e@ == "Password too long"@),
        8 <= crate::text::utf8_len(new_password@) <= 128 ==> r is Ok,
        r matches Ok(u) ==> {
            &&& 8 <= crate::text::utf8_len(new_password@) <= 128
            &&& u.username == user.username && u.node_id == user.node_id && u.user_level == user.user_level
            &&& u.first_login == user.first_login && u.total_messages == user.total_messages
            &&& u.last_login == now
            &&& u.password_hash matches Some(h) && phc_parses(h@) && argon2_verifies(new_password@, h@)
        },
{
    check_new_password(new_password)?;
    let salt = new_salt();
    let hash = match argon2_hash(cost, new_password, salt.as_str()) {
        Ok(h) => h,
        Err(e) => return Err(prefixed("Password hash failure: ", e)),
    };
    Ok(with_password_hash(user, hash, now))
}

/// Whether an admin may log in to the dashboard: a level below the one
/// required never may; otherwise the password must match the BBS hash, and a
/// hash that is not a PHC string is reported as "Invalid password hash: ...".
pub fn verify_credentials(required_level: u8, admin_level: u8, password: &str, bbs_password_hash: &str) -> (r: Result<bool, String>)
    ensures
        admin_level < required_level ==> r == Ok::<bool, String>(false),
        admin_level >= required_level ==> if phc_parses(bbs_password_hash@) {
            r == Ok::<bool, String>(argon2_verifies(password@, bbs_password_hash@))
        } else {
            r matches Err(e) && exists|m: Seq<char>| e@ == "Invalid password hash: "@ + m
        },
{
    if admin_level < required_level {
        return Ok(false);
    }
    match argon2_verify(password, bbs_password_hash) {
        Ok(b) => Ok(b),
        Err(e) => {
            let ghost m = e@;
            let s = prefixed("Invalid password hash: ", e);
            assert(s@ == "Invalid password hash: "@ + m);
            Err(s)
        },
    }
}

/// A password set at registration or by a change is the one that checks:
/// for the account such a call returns, checking the same password succeeds.
pub proof fn lemma_set_password_checks(u: User, password: Seq<char>)
    requires
        u.password_hash matches Some(h) && phc_parses(h@) && argon2_verifies(password, h@),
    ensures
        password_check(u, password) == Some(true),
{
}

} // verus!
