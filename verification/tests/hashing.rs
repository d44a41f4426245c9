use blog_server::account::{register, RegisterForm};
use blog_server::crypto::hash_password;
use blog_server::store::Store;
use sha3::Digest;

#[test]
fn hash_password_is_hex_of_sha3_256() {
    let expected = hex::encode(sha3::Sha3_256::digest("wonderland".as_bytes()));
    assert_eq!(hash_password("wonderland"), expected);
}

#[test]
fn registered_row_stores_the_hash_not_the_password() {
    let mut store = Store::new();
    register(
        &mut store,
        &RegisterForm {
            username: String::from("alice"),
            pass: String::from("wonderland"),
            email: String::from("alice@example.com"),
            nickname: String::from("Alice"),
        },
    );
    let expected = hex::encode(sha3::Sha3_256::digest("wonderland".as_bytes()));
    assert_eq!(store.users[0].pass, expected);
    assert_ne!(store.users[0].pass, "wonderland");
}

#[test]
fn empty_password_hashes_to_the_sha3_empty_digest() {
    let expected = hex::encode(sha3::Sha3_256::digest(b""));
    assert_eq!(hash_password(""), expected);
}
