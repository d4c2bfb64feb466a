use timefusion::auth::{outcome_accepts, User, UserDB, UserDbError, DEFAULT_COST};

const PASSWORD_HASH: &str = "$2a$04$UuTkLRZZ6QofpDOlMz32MuuxEHA43WOemOYHPz6.SjsVsyO1tDU96";
const STAPLER_HASH: &str = "$2b$04$EGdrhbKUv8Oc9vGiXX0HQOxSg445d458Muh7DAHskb6QbtCvdxcie";

fn user(name: &str, hash: &str, is_admin: bool) -> User {
    User { username: name.to_string(), hashed_password: hash.to_string(), is_admin }
}

fn two_users() -> UserDB {
    UserDB::new(vec![user("alice", PASSWORD_HASH, false), user("bob", STAPLER_HASH, true)])
}

#[test]
fn the_default_cost_is_twelve() {
    assert_eq!(DEFAULT_COST, 12);
}

#[test]
fn the_right_password_is_accepted() {
    let db = two_users();
    assert!(db.verify_user("alice", "password"));
    assert!(db.verify_user("bob", "correctbatteryhorsestapler"));
}

#[test]
fn a_wrong_password_is_refused() {
    let db = two_users();
    assert!(!db.verify_user("alice", "Password"));
    assert!(!db.verify_user("alice", ""));
    assert!(!db.verify_user("alice", "correctbatteryhorsestapler"));
    assert!(!db.verify_user("bob", "password"));
}

#[test]
fn the_stored_hash_is_no_password() {
    let db = two_users();
    assert!(!db.verify_user("alice", PASSWORD_HASH));
}

#[test]
fn an_unknown_user_is_refused() {
    let db = two_users();
    assert!(!db.verify_user("carol", "password"));
    assert!(!db.verify_user("", "password"));
    assert!(!db.verify_user("Alice", "password"));
    assert!(!UserDB::new(Vec::new()).verify_user("alice", "password"));
}

#[test]
fn a_hash_that_cannot_be_read_is_refused() {
    let db = UserDB::new(vec![user("mallory", "password", false), user("eve", "", false)]);
    assert!(!db.verify_user("mallory", "password"));
    assert!(!db.verify_user("eve", ""));
}

#[test]
fn the_first_account_of_a_name_decides() {
    let db = UserDB::new(vec![user("alice", PASSWORD_HASH, false), user("alice", STAPLER_HASH, false)]);
    assert!(db.verify_user("alice", "password"));
    assert!(!db.verify_user("alice", "correctbatteryhorsestapler"));
}

#[test]
fn lookup_finds_the_first_position() {
    let db = UserDB::new(vec![
        user("alice", PASSWORD_HASH, false),
        user("bob", STAPLER_HASH, true),
        user("alice", STAPLER_HASH, false),
    ]);
    assert_eq!(db.lookup("alice"), Some(0));
    assert_eq!(db.lookup("bob"), Some(1));
    assert_eq!(db.lookup("carol"), None);
}

#[test]
fn only_a_match_is_accepted() {
    assert!(outcome_accepts(Some(true)));
    assert!(!outcome_accepts(Some(false)));
    assert!(!outcome_accepts(None));
}

#[test]
fn add_user_appends() {
    let mut db = two_users();
    assert_eq!(db.add_user("carol", PASSWORD_HASH.to_string(), true), Ok(()));
    assert_eq!(db.users.len(), 3);
    assert_eq!(db.users[2].username, "carol");
    assert_eq!(db.users[2].hashed_password, PASSWORD_HASH);
    assert!(db.users[2].is_admin);
    assert!(db.verify_user("carol", "password"));
    assert!(db.verify_user("alice", "password"));
}

#[test]
fn add_user_refuses_a_name_that_exists() {
    let mut db = two_users();
    assert_eq!(
        db.add_user("alice", STAPLER_HASH.to_string(), true),
        Err(UserDbError::AlreadyExists)
    );
    assert_eq!(db.users.len(), 2);
    assert_eq!(db.users[0].hashed_password, PASSWORD_HASH);
    assert!(!db.users[0].is_admin);
}

#[test]
fn create_user_stores_a_hash_that_matches() {
    let mut db = two_users();
    assert_eq!(db.create_user("carol", "s3cret", false), Ok(()));
    assert_eq!(db.users.len(), 3);
    assert_eq!(db.users[2].username, "carol");
    assert!(!db.users[2].is_admin);
    assert_ne!(db.users[2].hashed_password, "s3cret");
    assert!(db.users[2].hashed_password.starts_with("$2b$12$"));
    assert!(db.verify_user("carol", "s3cret"));
    assert!(!db.verify_user("carol", "s3cre"));
}

#[test]
fn create_user_refuses_a_name_that_exists() {
    let mut db = two_users();
    assert_eq!(db.create_user("bob", "anything", false), Err(UserDbError::AlreadyExists));
    assert_eq!(db.users.len(), 2);
    assert!(db.verify_user("bob", "correctbatteryhorsestapler"));
}

#[test]
fn the_default_database_has_one_administrator() {
    let db = UserDB::with_default_admin().unwrap();
    assert_eq!(db.users.len(), 1);
    assert_eq!(db.users[0].username, "admin");
    assert!(db.users[0].is_admin);
    assert!(db.verify_user("admin", "admin123"));
}
