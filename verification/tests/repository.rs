use account_repo::CreateUser;
use account_repo::Exception;
use account_repo::Store;
use account_repo::User;

fn mk(email: &str, username: &str, password: &str) -> CreateUser {
    CreateUser {
        email: email.to_string(),
        username: username.to_string(),
        password: password.to_string(),
    }
}

#[test]
fn save_hashes_password_and_verification_succeeds() {
    let mut store = Store::new();
    let saved = User::save(mk("x@example.com", "xavier", "hunter2passw0rd"), &mut store)
        .expect("saving a fresh email succeeds");
    assert_ne!(saved.password, "hunter2passw0rd");
    assert_eq!(saved.password.len(), 60);
    assert!(saved.password.starts_with("$2"));
    assert!(bcrypt::verify("hunter2passw0rd", &saved.password).unwrap());
    assert!(!bcrypt::verify("some other guess", &saved.password).unwrap());
}

#[test]
fn find_one_missing_id_is_not_found() {
    let mut store = Store::new();
    assert_eq!(User::find_one(1, &store), Err(Exception::NotFound));
    let saved = User::save(mk("x@example.com", "xavier", "pw"), &mut store).unwrap();
    assert_eq!(User::find_one(saved.id + 41, &store), Err(Exception::NotFound));
}

#[test]
fn find_one_returns_soft_deleted_record() {
    let mut store = Store::new();
    let saved = User::save(mk("x@example.com", "xavier", "pw"), &mut store).unwrap();
    assert!(store.mark_deleted(saved.id, 777));
    let fetched = User::find_one(saved.id, &store).expect("a soft-deleted row is not filtered");
    assert_eq!(fetched.deleted_at, Some(777));
    assert_eq!(fetched.email, "x@example.com");
    assert_eq!(fetched.username, "xavier");
    assert_eq!(fetched.updated_at, saved.updated_at);
}

#[test]
fn mark_deleted_missing_id_changes_nothing() {
    let mut store = Store::new();
    User::save(mk("x@example.com", "xavier", "pw"), &mut store).unwrap();
    assert!(!store.mark_deleted(42, 777));
    let (items, count) = User::find(&store).unwrap();
    assert_eq!(count, 1);
    assert_eq!(items[0].deleted_at, None);
}

#[test]
fn find_one_by_email_matches_exactly() {
    let mut store = Store::new();
    User::save(mk("x@example.com", "xavier", "pw1"), &mut store).unwrap();
    User::save(mk("y@example.com", "yann", "pw2"), &mut store).unwrap();
    let found = User::find_one_by_email("x@example.com".to_string(), &store).unwrap();
    assert_eq!(found.email, "x@example.com");
    assert_eq!(found.username, "xavier");
    // The store compares character for character, so a query differing
    // only in case matches nothing.
    assert_eq!(
        User::find_one_by_email("X@EXAMPLE.COM".to_string(), &store),
        Err(Exception::NotFound)
    );
}

#[test]
fn find_returns_all_rows_and_a_matching_count() {
    let mut store = Store::new();
    let (items, count) = User::find(&store).unwrap();
    assert!(items.is_empty());
    assert_eq!(count, 0);
    User::save(mk("a@example.com", "ann", "pw1"), &mut store).unwrap();
    User::save(mk("b@example.com", "bob", "pw2"), &mut store).unwrap();
    User::save(mk("c@example.com", "cyd", "pw3"), &mut store).unwrap();
    let (items, count) = User::find(&store).unwrap();
    assert_eq!(items.len(), 3);
    assert_eq!(count, 3);
    let emails: Vec<&str> = items.iter().map(|u| u.email.as_str()).collect();
    assert_eq!(emails, vec!["a@example.com", "b@example.com", "c@example.com"]);
}

#[test]
fn duplicate_email_save_fails_without_inserting() {
    let mut store = Store::new();
    User::save(mk("x@example.com", "xavier", "pw1"), &mut store).unwrap();
    let (_, count_before) = User::find(&store).unwrap();
    let refused = User::save(mk("x@example.com", "impostor", "pw2"), &mut store);
    assert_eq!(refused, Err(Exception::InternalServerError));
    let (items, count_after) = User::find(&store).unwrap();
    assert_eq!(count_after, count_before);
    assert_eq!(items.len(), 1);
    let kept = User::find_one_by_email("x@example.com".to_string(), &store).unwrap();
    assert_eq!(kept.username, "xavier");
}

#[test]
fn sequential_saves_get_distinct_increasing_ids() {
    let mut store = Store::new();
    let first = User::save(mk("a@example.com", "ann", "pw1"), &mut store).unwrap();
    let second = User::save(mk("b@example.com", "bob", "pw2"), &mut store).unwrap();
    assert_eq!(first.id, 1);
    assert_eq!(second.id, 2);
    assert!(first.id < second.id);
}

#[test]
fn save_sets_store_assigned_fields() {
    let mut store = Store::new();
    let saved = User::save(mk("x@example.com", "xavier", "pw"), &mut store).unwrap();
    assert_eq!(saved.id, 1);
    assert_eq!(saved.email, "x@example.com");
    assert_eq!(saved.username, "xavier");
    assert_eq!(saved.created_at, saved.updated_at);
    assert_eq!(saved.deleted_at, None);
    let fetched = User::find_one(1, &store).unwrap();
    assert_eq!(fetched.created_at, saved.created_at);
    assert_eq!(fetched.password, saved.password);
}
