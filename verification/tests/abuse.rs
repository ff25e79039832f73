use ruburu::errors::{DbError, Error};
use ruburu::ident::Uuid;
use ruburu::models::{Ban, Captcha, NotBanned};
use ruburu::net::IpNetwork;
use ruburu::store::Store;

#[test]
fn verify_is_single_use() {
    let mut store = Store::new();
    let captcha = Captcha::new("cGljdHVyZQ==".to_string(), "AbC123", &mut store).unwrap();
    assert_eq!(captcha.solution(), "abc123");
    assert_eq!(captcha.base64image(), "cGljdHVyZQ==");
    assert_eq!(store.captchas.len(), 1);
    assert_eq!(Captcha::verify(captcha.id(), "abc123", &mut store), Ok(true));
    assert!(store.captchas.is_empty());
    assert_eq!(Captcha::verify(captcha.id(), "abc123", &mut store), Ok(false));
}

#[test]
fn verify_ignores_the_case_of_the_answer() {
    let mut store = Store::new();
    let captcha = Captcha::new(String::new(), "abcdef", &mut store).unwrap();
    assert_eq!(Captcha::verify(captcha.id(), "ABCdef", &mut store), Ok(true));
}

#[test]
fn a_wrong_answer_uses_the_captcha_up() {
    let mut store = Store::new();
    let captcha = Captcha::new(String::new(), "abcdef", &mut store).unwrap();
    assert_eq!(Captcha::verify(captcha.id(), "abcdeg", &mut store), Ok(false));
    assert!(store.captchas.is_empty());
    assert_eq!(Captcha::verify(captcha.id(), "abcdef", &mut store), Ok(false));
}

#[test]
fn verify_of_an_unknown_token_is_false() {
    let mut store = Store::new();
    Captcha::issue(Uuid(1), String::new(), "abc".to_string(), &mut store).unwrap();
    assert_eq!(Captcha::verify(Uuid(2), "abc", &mut store), Ok(false));
    assert_eq!(store.captchas.len(), 1);
}

#[test]
fn verify_leaves_other_captchas() {
    let mut store = Store::new();
    for n in 1..=3 {
        Captcha::issue(Uuid(n), String::new(), format!("s{}", n), &mut store).unwrap();
    }
    assert!(Captcha::check(Uuid(2), "s2", &mut store));
    let left: Vec<u128> = store.captchas.iter().map(|c| c.id.0).collect();
    assert_eq!(left, vec![1, 3]);
    assert!(!Captcha::check(Uuid(3), "S3", &mut store));
    assert!(Captcha::check(Uuid(1), "s1", &mut store));
}

#[test]
fn a_token_in_use_is_refused() {
    let mut store = Store::new();
    Captcha::issue(Uuid(1), String::new(), "abc".to_string(), &mut store).unwrap();
    assert_eq!(
        Captcha::issue(Uuid(1), String::new(), "xyz".to_string(), &mut store),
        Err(Error::Db(DbError::ConstraintViolation))
    );
    assert_eq!(store.captchas.len(), 1);
}

#[test]
fn fresh_tokens_differ() {
    let mut store = Store::new();
    let one = Captcha::new(String::new(), "a", &mut store).unwrap();
    let two = Captcha::new(String::new(), "a", &mut store).unwrap();
    assert_ne!(one.id(), two.id());
}

fn subnet() -> IpNetwork {
    IpNetwork::V4 { address: 0x0a000000, prefix: 8 }
}

#[test]
fn a_ban_holds_until_its_duration_has_run_out() {
    let mut store = Store::new();
    Ban::create(subnet(), "spam", 100, 50, &mut store);
    let inside = IpNetwork::host_v4(0x0a010203);
    assert_eq!(
        NotBanned::from_request(inside, 120, &store),
        Err((403, Error::Banned("spam".to_string())))
    );
    assert_eq!(
        NotBanned::from_request(inside, 149, &store),
        Err((403, Error::Banned("spam".to_string())))
    );
    assert_eq!(NotBanned::from_request(inside, 150, &store), Ok(NotBanned));
    assert_eq!(NotBanned::from_request(inside, 1000, &store), Ok(NotBanned));
}

#[test]
fn a_ban_holds_only_within_its_network() {
    let mut store = Store::new();
    Ban::create(subnet(), "spam", 100, 50, &mut store);
    assert_eq!(NotBanned::from_request(IpNetwork::host_v4(0x0b010203), 120, &store), Ok(NotBanned));
    assert_eq!(NotBanned::from_request(IpNetwork::host_v6(0x0a010203), 120, &store), Ok(NotBanned));
}

#[test]
fn the_latest_ban_is_answered() {
    let mut store = Store::new();
    Ban::create(subnet(), "first", 100, 1000, &mut store);
    Ban::create(IpNetwork::V4 { address: 0, prefix: 0 }, "second", 200, 1000, &mut store);
    Ban::create(subnet(), "expired", 300, 1, &mut store);
    Ban::create(subnet(), "tied", 200, 1000, &mut store);
    assert_eq!(
        NotBanned::from_request(IpNetwork::host_v4(0x0a000001), 400, &store),
        Err((403, Error::Banned("second".to_string())))
    );
}

#[test]
fn a_ban_with_extreme_times_does_not_overflow() {
    let ban = Ban { ip: subnet(), reason: String::new(), created_at: i64::MAX, duration: i64::MAX };
    assert!(ban.holds(&IpNetwork::host_v4(0x0a000001), i64::MAX));
    let ban = Ban { ip: subnet(), reason: String::new(), created_at: i64::MIN, duration: -1 };
    assert!(!ban.holds(&IpNetwork::host_v4(0x0a000001), i64::MIN));
}

#[test]
fn a_captcha_is_always_issued_on_a_store_without_captchas() {
    for _ in 0..32 {
        let mut store = Store::new();
        assert!(Captcha::new(String::new(), "abc", &mut store).is_ok());
    }
}

#[test]
fn a_token_that_blocks_a_new_captcha_is_a_random_one() {
    let mut store = Store::new();
    Captcha::issue(Uuid(1), String::new(), "abc".to_string(), &mut store).unwrap();
    for _ in 0..32 {
        assert!(Captcha::new(String::new(), "abc", &mut store).is_ok());
    }
    assert_eq!(store.captchas.len(), 33);
}
