use meshbbs::config::Argon2Config;
use meshbbs::password::{
    check_user_password, configured_cost, register_user, update_user_password, verify_credentials, Argon2Cost,
};

fn cheap() -> Option<Argon2Cost> {
    Some(Argon2Cost { m_cost: 64, t_cost: 1, p_cost: 1 })
}

#[test]
fn registered_password_checks() {
    let u = register_user("alice", "correct horse", Some("n1"), false, cheap(), 5).unwrap();
    assert!(u.password_hash.as_deref().unwrap().starts_with("$argon2id$v=19$"));
    assert_eq!(check_user_password(&u, "correct horse"), Ok(true));
    assert_eq!(check_user_password(&u, "wrong"), Ok(false));
}

#[test]
fn registration_refusals() {
    assert_eq!(register_user("a", "pw", None, false, cheap(), 0).unwrap_err(), "Username too short");
    assert_eq!(register_user("alice", "pw", None, true, cheap(), 0).unwrap_err(), "User already exists");
}

#[test]
fn password_change() {
    let u = register_user("bob", "first pass", None, false, cheap(), 0).unwrap();
    let w = register_user("bob", "first pass", None, false, cheap(), 0).unwrap();
    assert_eq!(update_user_password(w, "short", cheap(), 1).unwrap_err(), "Password too short (min 8)");
    let v = update_user_password(u, "second pass", cheap(), 9).unwrap();
    assert_eq!(v.last_login, 9);
    assert_eq!(check_user_password(&v, "second pass"), Ok(true));
    assert_eq!(check_user_password(&v, "first pass"), Ok(false));
}

#[test]
fn corrupt_hash_is_an_error() {
    let mut u = register_user("carl", "some pass", None, false, cheap(), 0).unwrap();
    u.password_hash = Some("not a hash".to_string());
    assert!(check_user_password(&u, "some pass").unwrap_err().starts_with("Corrupt password hash: "));
    u.password_hash = None;
    assert_eq!(check_user_password(&u, "some pass"), Ok(false));
}

#[test]
fn dashboard_credentials() {
    let u = register_user("sysop", "admin pass", None, false, cheap(), 0).unwrap();
    let h = u.password_hash.unwrap();
    assert_eq!(verify_credentials(10, 5, "admin pass", &h), Ok(false));
    assert_eq!(verify_credentials(10, 10, "admin pass", &h), Ok(true));
    assert_eq!(verify_credentials(10, 10, "nope", &h), Ok(false));
    assert!(verify_credentials(10, 10, "x", "garbage").unwrap_err().starts_with("Invalid password hash: "));
}

#[test]
fn configured_costs() {
    assert_eq!(configured_cost(None), None);
    let all_default = Argon2Config { memory_kib: None, time_cost: None, parallelism: None };
    assert_eq!(configured_cost(Some(all_default)), Some(Argon2Cost { m_cost: 19456, t_cost: 2, p_cost: 1 }));
    let custom = Argon2Config { memory_kib: Some(32768), time_cost: Some(3), parallelism: Some(2) };
    assert_eq!(configured_cost(Some(custom)), Some(Argon2Cost { m_cost: 32768, t_cost: 3, p_cost: 2 }));
    let refused = Argon2Config { memory_kib: Some(4), time_cost: Some(1), parallelism: Some(1) };
    assert_eq!(configured_cost(Some(refused)), None);
    let no_passes = Argon2Config { memory_kib: None, time_cost: Some(0), parallelism: None };
    assert_eq!(configured_cost(Some(no_passes)), None);
}
