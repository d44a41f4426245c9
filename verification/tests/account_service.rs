use blog_server::account::{info, get_user, login, ping, register, LoginForm, RegisterForm};
use blog_server::errors::AccountError;
use blog_server::models::AccountLevel;
use blog_server::store::Store;

const SECRET: &str = "0123456789abcdef-test-secret";

fn alice_form() -> RegisterForm {
    RegisterForm {
        username: String::from("alice"),
        pass: String::from("wonderland"),
        email: String::from("alice@example.com"),
        nickname: String::from("Alice"),
    }
}

#[test]
fn ping_replies_pong() {
    let r = ping();
    assert!(r.status);
    assert_eq!(r.body.unwrap().reply, "pong!");
}

#[test]
fn register_succeeds_once() {
    let mut store = Store::new();
    let r = register(&mut store, &alice_form());
    assert_eq!(r.result, AccountError::Nothing);
    assert_eq!(store.users.len(), 1);
    assert_eq!(store.users[0].username, "alice");
    assert_eq!(store.users[0].permission, 0);
}

#[test]
fn register_same_username_twice_rejected() {
    let mut store = Store::new();
    assert_eq!(register(&mut store, &alice_form()).result, AccountError::Nothing);
    let again = RegisterForm {
        username: String::from("alice"),
        pass: String::from("other-pass"),
        email: String::from("alice2@example.com"),
        nickname: String::from("Alice II"),
    };
    let r = register(&mut store, &again);
    assert_eq!(r.result, AccountError::UsernameAlreadyExists);
    assert_eq!(store.users.len(), 1);
}

#[test]
fn register_same_email_twice_rejected() {
    let mut store = Store::new();
    assert_eq!(register(&mut store, &alice_form()).result, AccountError::Nothing);
    let again = RegisterForm {
        username: String::from("alicia"),
        pass: String::from("other-pass"),
        email: String::from("alice@example.com"),
        nickname: String::from("Alicia"),
    };
    let r = register(&mut store, &again);
    assert_eq!(r.result, AccountError::EmailAlreadyExists);
    assert_eq!(store.users.len(), 1);
}

#[test]
fn login_wrong_password_no_token() {
    let mut store = Store::new();
    register(&mut store, &alice_form());
    let r = login(
        &store,
        SECRET,
        &LoginForm { username: String::from("alice"), pass: String::from("not-wonderland") },
    );
    assert_eq!(r.result, AccountError::PassNotMatched);
    assert!(r.token.is_none());
}

#[test]
fn login_unknown_user() {
    let store = Store::new();
    let r = login(
        &store,
        SECRET,
        &LoginForm { username: String::from("nobody"), pass: String::from("whatever") },
    );
    assert_eq!(r.result, AccountError::UserNotExists);
    assert!(r.token.is_none());
}

#[test]
fn login_token_resolves_to_registered_profile() {
    let mut store = Store::new();
    register(&mut store, &alice_form());
    let r = login(
        &store,
        SECRET,
        &LoginForm { username: String::from("alice"), pass: String::from("wonderland") },
    );
    assert_eq!(r.result, AccountError::Nothing);
    let token = r.token.expect("a successful login carries a token");
    let profile = info(&store, SECRET, &token).expect("the token resolves");
    assert_eq!(profile.username, "alice");
    assert_eq!(profile.email, "alice@example.com");
    assert_eq!(profile.nickname, "Alice");
    assert_eq!(profile.level, AccountLevel::Default);
    assert_eq!(profile.pk, 1);
}

#[test]
fn info_rejects_garbage_token() {
    let mut store = Store::new();
    register(&mut store, &alice_form());
    assert!(info(&store, SECRET, "not-a-token").is_none());
}

#[test]
fn info_rejects_token_signed_with_other_secret() {
    let mut store = Store::new();
    register(&mut store, &alice_form());
    let r = login(
        &store,
        "another-secret-0123456789",
        &LoginForm { username: String::from("alice"), pass: String::from("wonderland") },
    );
    let token = r.token.expect("login succeeded");
    assert!(info(&store, SECRET, &token).is_none());
}

#[test]
fn get_user_is_unauthenticated() {
    let mut store = Store::new();
    register(&mut store, &alice_form());
    let profile = get_user(&store, 1).expect("the id exists");
    assert_eq!(profile.username, "alice");
    assert!(get_user(&store, 2).is_none());
}
