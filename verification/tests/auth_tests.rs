use forum_api::auth::{CreateAccountDetails, LoginDetails, UserAuth, UserAuthDetails};
use forum_api::middleware::{Authenticate, AuthenticateMiddleware};
use forum_api::store::Store;
use forum_api::ErrorKind;

const SECRET: &str = "ItsPublic";
const NOW: i64 = 1_700_000_000;

fn account(u: Option<&str>, p: Option<&str>, c: Option<&str>) -> CreateAccountDetails {
    CreateAccountDetails {
        username: u.map(|s| s.to_owned()),
        password: p.map(|s| s.to_owned()),
        confirm_password: c.map(|s| s.to_owned()),
    }
}

#[test]
fn create_account_then_duplicate_username() {
    let mut store = Store::new();
    let res = account(Some("alice"), Some("secret123"), Some("secret123"))
        .add_db_client()
        .insert_to_db(&mut store, NOW);
    let details = res.expect("first creation succeeds");
    assert_eq!(details.id, 1);
    assert_eq!(details.username, "alice");
    let token = details.clone().to_jwt(SECRET);
    assert!(!token.is_empty());

    let err = account(Some("alice"), Some("another99"), Some("another99"))
        .add_db_client()
        .insert_to_db(&mut store, NOW)
        .expect_err("duplicate username is refused");
    assert_eq!(err.name.as_deref(), Some("username"));
    assert_eq!(err.message, "Username is already taken");
    assert_eq!(store.users.len(), 1);
}

#[test]
fn missing_username_reported_before_missing_password() {
    let store = Store::new();
    let err = account(None, None, None)
        .add_db_client()
        .validate_details(&store)
        .expect_err("empty payload is refused");
    assert_eq!(err.name.as_deref(), Some("username"));
    assert_eq!(err.message, "Username is required");
}

#[test]
fn account_validation_error_order() {
    let store = Store::new();
    let e = account(Some("a"), None, None).add_db_client().validate_details(&store);
    assert_eq!(e.unwrap_err().message, "Password is required");
    let e = account(Some("a"), Some("longenough"), Some("other")).add_db_client()
        .validate_details(&store);
    assert_eq!(e.unwrap_err().message, "Passwords does not match");
    let long = "x".repeat(51);
    let e = account(Some(&long), Some("longenough"), Some("longenough")).add_db_client()
        .validate_details(&store);
    assert_eq!(e.unwrap_err().message, "Names should not be more than 50 characters");
    let e = account(Some("a"), Some("abc"), Some("abc")).add_db_client().validate_details(&store);
    assert_eq!(
        e.unwrap_err().message,
        "Password should greater than 3 but not more than 50 characters"
    );
}

#[test]
fn login_roundtrip_and_failures() {
    let mut store = Store::new();
    account(Some("bob"), Some("hunter22"), Some("hunter22"))
        .add_db_client()
        .insert_to_db(&mut store, NOW)
        .expect("account created");

    let ok = LoginDetails { username: Some("bob".to_owned()), password: Some("hunter22".to_owned()) }
        .add_db_client()
        .validate(&store, NOW)
        .expect("correct password logs in");
    assert_eq!(ok.id, 1);
    assert_eq!(ok.username, "bob");
    assert_eq!(ok.expires_at, NOW + 1209600);

    let e = LoginDetails { username: None, password: None }.add_db_client().validate(&store, NOW);
    assert_eq!(e.unwrap_err().message, "Username is required");

    let e = LoginDetails { username: Some("nobody".to_owned()), password: Some("x".to_owned()) }
        .add_db_client()
        .validate(&store, NOW);
    let e = e.unwrap_err();
    assert_eq!(e.name.as_deref(), Some("username"));
    assert_eq!(e.message, "Username does not exists");

    let e = LoginDetails { username: Some("bob".to_owned()), password: Some("wrongpw".to_owned()) }
        .add_db_client()
        .validate(&store, NOW);
    let e = e.unwrap_err();
    assert_eq!(e.kind, ErrorKind::BadInput);
    assert_eq!(e.name.as_deref(), Some("password"));
    assert_eq!(e.message, "Wrong password");
}

#[test]
fn jwt_roundtrip_preserves_identity() {
    let details = UserAuthDetails { id: 9, username: "carol".to_owned(), expires_at: NOW + 1000 };
    let token = details.to_jwt(SECRET);
    assert!(!token.is_empty());
    let back = UserAuthDetails::from_jwt(&token, SECRET, NOW).expect("fresh token decodes");
    assert_eq!(back.id, 9);
    assert_eq!(back.username, "carol");
    assert_eq!(back.expires_at, NOW + 1000);
}

#[test]
fn expired_or_tampered_tokens_are_refused() {
    let details = UserAuthDetails { id: 9, username: "carol".to_owned(), expires_at: NOW - 1 };
    let token = details.to_jwt(SECRET);
    let e = UserAuthDetails::from_jwt(&token, SECRET, NOW).expect_err("expired token refused");
    assert_eq!(e, "Token expired");

    let fresh = UserAuthDetails { id: 9, username: "carol".to_owned(), expires_at: NOW + 1000 };
    let token = fresh.to_jwt(SECRET);
    assert!(UserAuthDetails::from_jwt(&token, "other-secret", NOW).is_err());
    let mut broken = token.clone();
    broken.push('x');
    assert!(UserAuthDetails::from_jwt(&broken, SECRET, NOW).is_err());
}

#[test]
fn signed_in_gate_turns_anonymous_callers_away() {
    let anonymous = UserAuth { details: None };
    let e = anonymous.require_signed_in().err().unwrap();
    assert_eq!(e.kind, ErrorKind::Forbidden);
    assert_eq!(e.name.as_deref(), Some("re-auth"));
    assert_eq!(e.message, "User not signed in");

    let caller = UserAuth {
        details: Some(UserAuthDetails { id: 7, username: "eve".to_owned(), expires_at: NOW }),
    };
    let u = caller.require_signed_in().unwrap();
    assert_eq!(u.id, 7);
    assert_eq!(u.username, "eve");
}

#[test]
fn middleware_attaches_identity_from_bearer_header() {
    let mw: AuthenticateMiddleware<()> = Authenticate.new_transform(());
    let details = UserAuthDetails { id: 4, username: "dave".to_owned(), expires_at: NOW + 60 };
    let header = format!("Bearer {}", details.to_jwt(SECRET));

    let auth = mw.authenticate(Some(header.as_str()), SECRET, NOW);
    let u = auth.details.expect("valid header authenticates");
    assert_eq!(u.id, 4);
    assert_eq!(u.username, "dave");

    assert!(mw.authenticate(None, SECRET, NOW).details.is_none());
    assert!(mw.authenticate(Some("Bearer"), SECRET, NOW).details.is_none());
    assert!(mw.authenticate(Some("Bearer garbage"), SECRET, NOW).details.is_none());
    let expired = UserAuthDetails { id: 4, username: "dave".to_owned(), expires_at: NOW - 60 };
    let h2 = format!("Bearer {}", expired.to_jwt(SECRET));
    assert!(mw.authenticate(Some(h2.as_str()), SECRET, NOW).details.is_none());
}
