use ruburu::errors::{DbError, Error};
use ruburu::ident::Uuid;
use ruburu::models::{AdminPrivilege, PrivelegeLevel, Session, User};
use ruburu::store::Store;

#[test]
fn identifiers_are_written_with_hyphens() {
    let id = Uuid(0xa1a2a3a4b1b2c1c2d1d2d3d4d5d6d7d8);
    assert_eq!(id.hyphenated(), "a1a2a3a4-b1b2-c1c2-d1d2-d3d4d5d6d7d8");
    assert_eq!(Uuid(0).hyphenated(), "00000000-0000-0000-0000-000000000000");
    assert_eq!(Uuid(0xf).hyphenated(), "00000000-0000-0000-0000-00000000000f");
}

#[test]
fn identifiers_are_read_back() {
    assert_eq!(
        Uuid::parse("a1a2a3a4-b1b2-c1c2-d1d2-d3d4d5d6d7d8"),
        Some(Uuid(0xa1a2a3a4b1b2c1c2d1d2d3d4d5d6d7d8))
    );
    assert_eq!(
        Uuid::parse("A1A2A3A4B1B2C1C2D1D2D3D4D5D6D7D8"),
        Some(Uuid(0xa1a2a3a4b1b2c1c2d1d2d3d4d5d6d7d8))
    );
    assert_eq!(Uuid::parse("not a token"), None);
    assert_eq!(Uuid::parse(""), None);
}

#[test]
fn random_identifiers_differ() {
    assert_ne!(Uuid::random(), Uuid::random());
}

#[test]
fn a_user_is_enrolled_once() {
    let mut store = Store::new();
    let user = User::enroll(Uuid(1), "admin", PrivelegeLevel::Admin, &mut store).unwrap();
    assert_eq!(user.name, "admin");
    assert_eq!(user.level, PrivelegeLevel::Admin);
    assert_eq!(
        User::enroll(Uuid(1), "other", PrivelegeLevel::Mod, &mut store),
        Err(Error::Db(DbError::ConstraintViolation))
    );
    let second = User::new("mod", PrivelegeLevel::Mod, &mut store).unwrap();
    assert_eq!(store.users.len(), 2);
    assert_eq!(store.users[1], second);
}

#[test]
fn a_session_gives_the_privilege_of_its_user() {
    let mut store = Store::new();
    User::enroll(Uuid(1), "admin", PrivelegeLevel::Admin, &mut store).unwrap();
    let session = Session::open(Uuid(0xa1a2a3a4b1b2c1c2d1d2d3d4d5d6d7d8), Uuid(1), 5, &mut store)
        .unwrap();
    assert_eq!(session.uid(), Uuid(1));
    assert_eq!(Session::get(session.id, &store), Ok(Some(session)));
    assert_eq!(Session::get(Uuid(3), &store), Ok(None));
    let privilege =
        AdminPrivilege::from_request(Some("a1a2a3a4-b1b2-c1c2-d1d2-d3d4d5d6d7d8"), &store);
    assert_eq!(privilege.map(|p| p.uid()), Some(Uuid(1)));
    assert_eq!(AdminPrivilege::from_request(None, &store), None);
    assert_eq!(AdminPrivilege::from_request(Some("nonsense"), &store), None);
    assert_eq!(
        AdminPrivilege::from_request(Some("00000000-0000-0000-0000-000000000003"), &store),
        None
    );
    assert_eq!(AdminPrivilege::from_token(Some(Uuid(3)), &store), None);
}

#[test]
fn a_session_needs_a_user() {
    let mut store = Store::new();
    assert_eq!(
        Session::open(Uuid(2), Uuid(1), 5, &mut store),
        Err(Error::Db(DbError::ConstraintViolation))
    );
    assert!(store.sessions.is_empty());
}

#[test]
fn random_identifiers_are_marked_as_random() {
    for _ in 0..64 {
        let id = Uuid::random();
        assert_eq!((id.0 >> 76) & 0xf, 4);
        assert_eq!((id.0 >> 62) & 0x3, 2);
        let text = id.hyphenated();
        assert_eq!(&text[14..15], "4");
        assert!(["8", "9", "a", "b"].contains(&&text[19..20]));
    }
}

#[test]
fn a_user_is_always_enrolled_on_a_store_without_users() {
    for _ in 0..32 {
        let mut store = Store::new();
        assert!(User::new("admin", PrivelegeLevel::Admin, &mut store).is_ok());
    }
}
