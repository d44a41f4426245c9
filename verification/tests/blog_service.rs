use blog_server::account::{login, register, LoginForm, RegisterForm};
use blog_server::blog::{
    count_posts, delete_post, edit_post, new_post, view_post, DeletePostForm, EditPostForm,
    NewPostForm, ViewPostForm,
};
use blog_server::errors::{AccountError, BlogError};
use blog_server::models::AccountLevel;
use blog_server::store::Store;

const SECRET: &str = "0123456789abcdef-test-secret";

/// A store with an admin "root" (password "toor") and a plain user
/// "bob" (password "builder").
fn store_with_users() -> Store {
    let mut store = Store::new();
    store
        .register("root", "toor", "root@example.com", "Root", AccountLevel::Admin)
        .expect("fresh store");
    let r = register(
        &mut store,
        &RegisterForm {
            username: String::from("bob"),
            pass: String::from("builder"),
            email: String::from("bob@example.com"),
            nickname: String::from("Bob"),
        },
    );
    assert_eq!(r.result, AccountError::Nothing);
    store
}

fn token_for(store: &Store, username: &str, pass: &str) -> String {
    let r = login(
        store,
        SECRET,
        &LoginForm { username: String::from(username), pass: String::from(pass) },
    );
    assert_eq!(r.result, AccountError::Nothing);
    r.token.expect("login succeeded")
}

fn hello_form() -> NewPostForm {
    NewPostForm {
        title: String::from("hello"),
        body: String::from("first post"),
        tag: vec![String::from("news"), String::from("meta")],
    }
}

#[test]
fn admin_creates_a_public_post() {
    let mut store = store_with_users();
    let token = token_for(&store, "root", "toor");
    let r = new_post(&mut store, SECRET, &token, &hello_form(), 100);
    assert_eq!(r.error, BlogError::Nothing);
    assert_eq!(count_posts(&store).count, 1);
    assert_eq!(store.posts[0].permission, 0);
    assert_eq!(store.posts[0].author, 1);
    assert_eq!(store.posts[0].tags, "news|meta");
    assert_eq!(store.posts[0].created_at, 100);
    assert_eq!(store.posts[0].modified_at, 100);
}

#[test]
fn non_admin_cannot_create_a_post() {
    let mut store = store_with_users();
    let token = token_for(&store, "bob", "builder");
    let r = new_post(&mut store, SECRET, &token, &hello_form(), 100);
    assert_eq!(r.error, BlogError::AuthError);
    assert_eq!(count_posts(&store).count, 0);
}

#[test]
fn missing_token_cannot_create_a_post() {
    let mut store = store_with_users();
    let r = new_post(&mut store, SECRET, "", &hello_form(), 100);
    assert_eq!(r.error, BlogError::AuthError);
    assert_eq!(count_posts(&store).count, 0);
}

#[test]
fn public_post_viewed_without_token() {
    let mut store = store_with_users();
    let token = token_for(&store, "root", "toor");
    new_post(&mut store, SECRET, &token, &hello_form(), 100);
    let r = view_post(&store, SECRET, "", &ViewPostForm { id: 1 });
    assert_eq!(r.error, BlogError::Nothing);
    let post = r.post.expect("a public post is shown to anyone");
    assert_eq!(post.title, "hello");
    assert_eq!(post.body, "first post");
    assert_eq!(post.tags, vec![String::from("news"), String::from("meta")]);
    assert_eq!(post.author, 1);
}

#[test]
fn absent_post_answers_database_error() {
    let store = store_with_users();
    let r = view_post(&store, SECRET, "", &ViewPostForm { id: 7 });
    assert_eq!(r.error, BlogError::DatabaseError);
    assert!(r.post.is_none());
}

#[test]
fn restricted_post_withheld_on_level_mismatch() {
    let mut store = store_with_users();
    // a restricted post, inserted at the storage level: permission 1
    let tags = vec![String::from("internal")];
    store.create_post("plans", "for admins", 1, &tags, 1, 100).expect("id space is fresh");
    // bob's level code is 0, the post's permission is 1
    let token = token_for(&store, "bob", "builder");
    let r = view_post(&store, SECRET, &token, &ViewPostForm { id: 1 });
    assert_eq!(r.error, BlogError::DatabaseError);
    assert!(r.post.is_none());
    // without any token the answer is AuthError
    let r = view_post(&store, SECRET, "", &ViewPostForm { id: 1 });
    assert_eq!(r.error, BlogError::AuthError);
    assert!(r.post.is_none());
    // the admin's level code is 1 and matches
    let token = token_for(&store, "root", "toor");
    let r = view_post(&store, SECRET, &token, &ViewPostForm { id: 1 });
    assert_eq!(r.error, BlogError::Nothing);
    assert!(r.post.is_some());
}

#[test]
fn non_author_cannot_edit_or_delete() {
    let mut store = store_with_users();
    let admin = token_for(&store, "root", "toor");
    new_post(&mut store, SECRET, &admin, &hello_form(), 100);
    let bob = token_for(&store, "bob", "builder");
    let e = edit_post(
        &mut store,
        SECRET,
        &bob,
        &EditPostForm {
            id: 1,
            title: String::from("defaced"),
            body: String::from("gone"),
            tag: vec![],
        },
        200,
    );
    assert_eq!(e.error, BlogError::AuthError);
    assert_eq!(store.posts[0].title, "hello");
    let d = delete_post(&mut store, SECRET, &bob, &DeletePostForm { id: 1 });
    assert_eq!(d.error, BlogError::AuthError);
    assert_eq!(count_posts(&store).count, 1);
}

#[test]
fn author_edit_succeeds_and_modified_at_advances() {
    let mut store = store_with_users();
    let admin = token_for(&store, "root", "toor");
    new_post(&mut store, SECRET, &admin, &hello_form(), 100);
    let e = edit_post(
        &mut store,
        SECRET,
        &admin,
        &EditPostForm {
            id: 1,
            title: String::from("hello again"),
            body: String::from("revised"),
            tag: vec![String::from("news")],
        },
        250,
    );
    assert_eq!(e.error, BlogError::Nothing);
    let r = view_post(&store, SECRET, "", &ViewPostForm { id: 1 });
    let post = r.post.expect("still public");
    assert_eq!(post.title, "hello again");
    assert_eq!(post.body, "revised");
    assert_eq!(post.tags, vec![String::from("news")]);
    assert_eq!(post.created_at, 100);
    assert_eq!(post.modified_at, 250);
    assert!(post.modified_at > 100);
}

#[test]
fn author_delete_removes_the_row() {
    let mut store = store_with_users();
    let admin = token_for(&store, "root", "toor");
    new_post(&mut store, SECRET, &admin, &hello_form(), 100);
    let d = delete_post(&mut store, SECRET, &admin, &DeletePostForm { id: 1 });
    assert_eq!(d.error, BlogError::Nothing);
    assert_eq!(count_posts(&store).count, 0);
    let again = delete_post(&mut store, SECRET, &admin, &DeletePostForm { id: 1 });
    assert_eq!(again.error, BlogError::DatabaseError);
}

#[test]
fn count_posts_counts_rows() {
    let mut store = store_with_users();
    assert_eq!(count_posts(&store).error, BlogError::Nothing);
    assert_eq!(count_posts(&store).count, 0);
    let admin = token_for(&store, "root", "toor");
    new_post(&mut store, SECRET, &admin, &hello_form(), 100);
    new_post(&mut store, SECRET, &admin, &hello_form(), 200);
    assert_eq!(count_posts(&store).count, 2);
}
