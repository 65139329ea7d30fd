use users_api::create;
use users_api::delete;
use users_api::errors::{http_status, Error};
use users_api::read;
use users_api::store::UserStore;
use users_api::update;

fn seeded_store() -> UserStore {
    let mut store = UserStore::new();
    let alice = create::User { name: String::from("Alice"), email: Some(String::from("alice@example.com")) };
    let bob = create::User { name: String::from("Bob"), email: None };
    let second_alice = create::User { name: String::from("Alice"), email: None };
    assert!(create::create_user(&mut store, alice, String::from("uid-alice"), 1_000).is_ok());
    assert!(create::create_user(&mut store, bob, String::from("uid-bob"), 2_000).is_ok());
    assert!(create::create_user(&mut store, second_alice, String::from("uid-alice2"), 3_000).is_ok());
    store
}

fn no_filter() -> users_api::query::GetUsersQuery {
    users_api::query::GetUsersQuery { name: None, email: None }
}

fn name_filter(n: &str) -> users_api::query::GetUsersQuery {
    users_api::query::GetUsersQuery { name: Some(String::from(n)), email: None }
}

#[test]
fn create_then_list_shows_the_new_row() {
    let mut store = UserStore::new();
    let before = read::get_users(&store, &no_filter());
    assert_eq!(before.total, 0);

    let input = create::User { name: String::from("Alice"), email: Some(String::from("alice@example.com")) };
    let r = create::create_user(&mut store, input, String::from("uid-1"), 42);
    assert!(r.is_ok());

    let after = read::get_users(&store, &no_filter());
    assert_eq!(after.total, 1);
    assert_eq!(after.data.len(), 1);
    assert_eq!(after.data[0].name, "Alice");
    assert_eq!(after.data[0].email, Some(String::from("alice@example.com")));
    assert_eq!(after.data[0].user_uid, "uid-1");
    assert_eq!(after.data[0].created_at, 42);
    assert!(after.data[0].id >= 1);
}

#[test]
fn create_then_get_returns_the_new_row() {
    let mut store = seeded_store();
    let input = create::User { name: String::from("Cara"), email: None };
    assert!(create::create_user(&mut store, input, String::from("uid-cara"), 9).is_ok());
    match read::get_user(&store, String::from("uid-cara")) {
        Ok(u) => {
            assert_eq!(u.name, "Cara");
            assert_eq!(u.email, None);
            assert_eq!(u.created_at, 9);
        },
        Err(_) => panic!("expected the freshly created row"),
    }
}

#[test]
fn list_filter_by_name_returns_exactly_the_matching_subset() {
    let store = seeded_store();
    let all = read::get_users(&store, &no_filter());
    assert_eq!(all.total, 3);

    let alices = read::get_users(&store, &name_filter("Alice"));
    assert_eq!(alices.total, 2);
    assert_eq!(alices.total, alices.data.len());
    for u in &alices.data {
        assert_eq!(u.name, "Alice");
    }
    assert_eq!(alices.data[0].user_uid, "uid-alice");
    assert_eq!(alices.data[1].user_uid, "uid-alice2");

    let nobody = read::get_users(&store, &name_filter("Zed"));
    assert_eq!(nobody.total, 0);
    assert!(nobody.data.is_empty());
}

#[test]
fn list_does_not_filter_by_email() {
    let store = seeded_store();
    let q = users_api::query::GetUsersQuery {
        name: None,
        email: Some(String::from("alice@example.com")),
    };
    // the email field binds but is not a filterable column
    let r = read::get_users(&store, &q);
    assert_eq!(r.total, 3);
}

#[test]
fn get_missing_identifier_is_not_found() {
    let store = seeded_store();
    match read::get_user(&store, String::from("uid-missing")) {
        Ok(_) => panic!("no row carries this identifier"),
        Err(e) => assert_eq!(e, Error::NotFound),
    }
}

#[test]
fn update_name_only_keeps_email() {
    let mut store = seeded_store();
    let patch = update::User { name: Some(String::from("Alicia")), email: None };
    assert!(update::update_user(&mut store, String::from("uid-alice"), patch).is_ok());
    match read::get_user(&store, String::from("uid-alice")) {
        Ok(u) => {
            assert_eq!(u.name, "Alicia");
            assert_eq!(u.email, Some(String::from("alice@example.com")));
            assert_eq!(u.created_at, 1_000);
        },
        Err(_) => panic!("the updated row must still be there"),
    }
}

#[test]
fn update_email_only_keeps_name() {
    let mut store = seeded_store();
    let patch = update::User { name: None, email: Some(String::from("bob@example.com")) };
    assert!(update::update_user(&mut store, String::from("uid-bob"), patch).is_ok());
    match read::get_user(&store, String::from("uid-bob")) {
        Ok(u) => {
            assert_eq!(u.name, "Bob");
            assert_eq!(u.email, Some(String::from("bob@example.com")));
        },
        Err(_) => panic!("the updated row must still be there"),
    }
}

#[test]
fn update_with_empty_patch_is_a_defined_error() {
    let mut store = seeded_store();
    let patch = update::User { name: None, email: None };
    assert_eq!(update::update_user(&mut store, String::from("uid-alice"), patch), Err(Error::EmptyPatch));
    // the table is untouched
    match read::get_user(&store, String::from("uid-alice")) {
        Ok(u) => assert_eq!(u.name, "Alice"),
        Err(_) => panic!("the row must still be there"),
    }
}

#[test]
fn update_missing_identifier_succeeds_silently() {
    // the statement affects zero rows; no row count distinguishes that from success
    let mut store = seeded_store();
    let patch = update::User { name: Some(String::from("X")), email: None };
    assert_eq!(update::update_user(&mut store, String::from("uid-missing"), patch), Ok(()));
    let all = read::get_users(&store, &no_filter());
    assert_eq!(all.total, 3);
    for u in &all.data {
        assert_ne!(u.name, "X");
    }
}

#[test]
fn update_missing_identifier_ignores_oversized_values() {
    // with no matching row, nothing is assigned, so nothing is held to a column
    let mut store = seeded_store();
    let long_name: String = std::iter::repeat('x').take(129).collect();
    let patch = update::User { name: Some(long_name), email: None };
    assert_eq!(update::update_user(&mut store, String::from("uid-missing"), patch), Ok(()));
    assert_eq!(read::get_users(&store, &no_filter()).total, 3);
}

#[test]
fn update_with_an_oversized_value_is_rejected() {
    let mut store = seeded_store();
    let long_name: String = std::iter::repeat('x').take(129).collect();
    let patch = update::User { name: Some(long_name), email: None };
    assert_eq!(update::update_user(&mut store, String::from("uid-alice"), patch), Err(Error::ValueTooLong));
}

#[test]
fn delete_removes_exactly_one_row_and_get_is_then_not_found() {
    let mut store = seeded_store();
    assert_eq!(read::get_users(&store, &no_filter()).total, 3);
    assert!(delete::delete_user(&mut store, String::from("uid-alice")).is_ok());
    assert_eq!(read::get_users(&store, &no_filter()).total, 2);
    match read::get_user(&store, String::from("uid-alice")) {
        Ok(_) => panic!("the row was deleted"),
        Err(e) => assert_eq!(e, Error::NotFound),
    }
    // the other rows are untouched
    assert!(read::get_user(&store, String::from("uid-bob")).is_ok());
    assert!(read::get_user(&store, String::from("uid-alice2")).is_ok());
}

#[test]
fn delete_missing_identifier_is_not_found() {
    let mut store = seeded_store();
    assert_eq!(delete::delete_user(&mut store, String::from("uid-missing")), Err(Error::NotFound));
    assert_eq!(read::get_users(&store, &no_filter()).total, 3);
}

#[test]
fn creates_assign_distinct_fresh_identities() {
    let mut store = UserStore::new();
    let a = create::User { name: String::from("A"), email: None };
    let b = create::User { name: String::from("B"), email: None };
    assert!(create::create_user(&mut store, a, String::from("uid-a"), 1).is_ok());
    assert!(create::create_user(&mut store, b, String::from("uid-b"), 2).is_ok());
    let ida = match read::get_user(&store, String::from("uid-a")) {
        Ok(u) => u.id,
        Err(_) => panic!("row a must be there"),
    };
    let idb = match read::get_user(&store, String::from("uid-b")) {
        Ok(u) => u.id,
        Err(_) => panic!("row b must be there"),
    };
    assert_ne!(ida, idb);
}

#[test]
fn create_with_a_taken_identifier_is_a_conflict() {
    let mut store = seeded_store();
    let dup = create::User { name: String::from("Other"), email: None };
    assert_eq!(
        create::create_user(&mut store, dup, String::from("uid-alice"), 5),
        Err(Error::Conflict)
    );
    assert_eq!(read::get_users(&store, &no_filter()).total, 3);
}

#[test]
fn create_with_oversized_values_is_rejected() {
    let mut store = UserStore::new();
    let long_name: String = std::iter::repeat('x').take(129).collect();
    let input = create::User { name: long_name, email: None };
    assert_eq!(
        create::create_user(&mut store, input, String::from("uid-1"), 1),
        Err(Error::ValueTooLong)
    );

    let long_uid: String = std::iter::repeat('u').take(129).collect();
    let input = create::User { name: String::from("ok"), email: None };
    assert_eq!(create::create_user(&mut store, input, long_uid, 1), Err(Error::ValueTooLong));

    let long_email: String = std::iter::repeat('e').take(256).collect();
    let input = create::User { name: String::from("ok"), email: Some(long_email) };
    assert_eq!(
        create::create_user(&mut store, input, String::from("uid-1"), 1),
        Err(Error::ValueTooLong)
    );

    // boundary values fit
    let edge_name: String = std::iter::repeat('n').take(128).collect();
    let edge_email: String = std::iter::repeat('e').take(255).collect();
    let input = create::User { name: edge_name, email: Some(edge_email) };
    assert!(create::create_user(&mut store, input, String::from("uid-1"), 1).is_ok());
}

#[test]
fn errors_carry_a_description() {
    assert!(!Error::BadQuery.message().is_empty());
    assert!(!Error::NotFound.message().is_empty());
    assert!(!Error::EmptyPatch.message().is_empty());
    assert!(!Error::Conflict.message().is_empty());
    assert!(!Error::ValueTooLong.message().is_empty());
    assert!(!Error::IdentityExhausted.message().is_empty());
}

#[test]
fn errors_map_to_their_status_classes() {
    assert_eq!(http_status(&Error::BadQuery), 400);
    assert_eq!(http_status(&Error::EmptyPatch), 400);
    assert_eq!(http_status(&Error::NotFound), 404);
    assert_eq!(http_status(&Error::Conflict), 500);
    assert_eq!(http_status(&Error::ValueTooLong), 500);
    assert_eq!(http_status(&Error::IdentityExhausted), 500);
}
