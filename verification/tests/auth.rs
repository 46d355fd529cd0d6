use todo_ai::db::{AuthError, HttpMethod, RequestBody, StoreError, SupabaseClient, SupabaseUser};
use todo_ai::model::UserTable;

fn client() -> SupabaseClient {
    SupabaseClient::new("http://store".to_string(), "service-key".to_string())
}

fn registered_user(username: &str, email: &str, password: &str) -> SupabaseUser {
    let req = client().register(username, email, password).expect("hashing works");
    match req.body {
        RequestBody::NewUser { username, email, password_hash } => SupabaseUser {
            id: "u-1".to_string(),
            username,
            email,
            password_hash,
            created_at: "1970-01-01T00:00:00+00:00".to_string(),
        },
        other => panic!("unexpected body: {:?}", other),
    }
}

#[test]
fn register_plans_a_post_with_representation() {
    let req = client().register("alice", "a@x.com", "pw").expect("hashing works");
    assert_eq!(req.method, HttpMethod::Post);
    assert_eq!(req.url, "http://store/rest/v1/users");
    assert_eq!(req.api_key, "service-key");
    assert!(req.want_representation);
}

#[test]
fn register_hashes_rather_than_stores_the_password() {
    let req = client().register("alice", "a@x.com", "pw").expect("hashing works");
    match req.body {
        RequestBody::NewUser { password_hash, .. } => {
            assert_ne!(password_hash, "pw");
            assert!(password_hash.starts_with("$2"));
        }
        other => panic!("unexpected body: {:?}", other),
    }
}

#[test]
fn register_then_login_succeeds() {
    let row = registered_user("alice", "a@x.com", "pw");
    let user = client().login_outcome(vec![row], "pw").expect("login succeeds");
    assert_eq!(user.username, "alice");
    assert_eq!(user.email, "a@x.com");
}

#[test]
fn wrong_password_is_invalid_credentials_not_not_found() {
    let row = registered_user("alice", "a@x.com", "pw");
    let err = client().login_outcome(vec![row], "wrong").expect_err("login fails");
    assert_eq!(err, AuthError::InvalidCredentials);
}

#[test]
fn unknown_username_is_not_found() {
    let err = client().login_outcome(vec![], "pw").expect_err("login fails");
    assert_eq!(err, AuthError::NotFound);
}

#[test]
fn unreadable_stored_hash_is_not_invalid_credentials() {
    let row = SupabaseUser {
        id: "u-1".to_string(),
        username: "alice".to_string(),
        email: "a@x.com".to_string(),
        password_hash: "not a bcrypt hash".to_string(),
        created_at: String::new(),
    };
    let err = client().login_outcome(vec![row], "pw").expect_err("login fails");
    assert_eq!(err, AuthError::Hashing);
}

#[test]
fn register_then_login_through_the_user_table() {
    let mut table = UserTable::new();
    table.create_user(registered_user("alice", "a@x.com", "pw"));
    table.create_user(registered_user("carol", "c@x.com", "other"));

    let rows = table.rows_for_username("alice");
    assert_eq!(rows.len(), 1);
    let user = client().login_outcome(rows, "pw").expect("login succeeds");
    assert_eq!(user.username, "alice");

    let rows = table.rows_for_username("alice");
    let err = client().login_outcome(rows, "other").expect_err("wrong password");
    assert_eq!(err, AuthError::InvalidCredentials);

    let rows = table.rows_for_username("bob");
    assert!(rows.is_empty());
    let err = client().login_outcome(rows, "pw").expect_err("unknown user");
    assert_eq!(err, AuthError::NotFound);
}

#[test]
fn login_request_filters_by_username() {
    let req = client().login("alice");
    assert_eq!(req.method, HttpMethod::Get);
    assert_eq!(req.url, "http://store/rest/v1/users");
    assert_eq!(req.query, vec![("username".to_string(), "eq.alice".to_string())]);
}

#[test]
fn rejected_registration_carries_the_body_verbatim() {
    let outcome = client().register_outcome(
        false,
        "duplicate key value violates unique constraint".to_string(),
        vec![],
    );
    match outcome {
        Err(StoreError::Rejected(body)) => {
            assert_eq!(body, "duplicate key value violates unique constraint")
        }
        other => panic!("unexpected outcome: {:?}", other),
    }
}

#[test]
fn successful_registration_needs_the_echoed_row() {
    let outcome = client().register_outcome(true, String::new(), vec![]);
    assert!(matches!(outcome, Err(StoreError::MissingRow)));

    let row = registered_user("bob", "b@x.com", "pw");
    let user = client()
        .register_outcome(true, String::new(), vec![row])
        .expect("row comes back");
    assert_eq!(user.username, "bob");
}

#[test]
fn plain_outcome_surfaces_the_body() {
    assert!(client().plain_outcome(true, String::new()).is_ok());
    match client().plain_outcome(false, "boom".to_string()) {
        Err(StoreError::Rejected(body)) => assert_eq!(body, "boom"),
        other => panic!("unexpected outcome: {:?}", other),
    }
}
