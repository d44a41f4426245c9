use vstd::prelude::*;

use crate::errors::BlogError;
use crate::models::{AccountLevel, PostV, level_code, level_to_code};
use crate::store::{
    Store, StoreV, create_allowed, create_post_v, delete_post_v, edit_post_v, edited_post_v,
    lemma_post_index_by_id, post_index_by_id, post_with_id, posts_wf, user_with_id,
};
use crate::tags::{join_spec, split_spec, split_tags};
use crate::token::verify_token;

verus! {

#[derive(Clone, Debug)]
pub struct NewPostForm {
    pub title: String,
    pub body: String,
    pub tag: Vec<String>,
}

#[derive(Clone, Copy, Debug)]
pub struct ViewPostForm {
    pub id: i64,
}

#[derive(Clone, Copy, Debug)]
pub struct DeletePostForm {
    pub id: i64,
}

#[derive(Clone, Debug)]
pub struct EditPostForm {
    pub id: i64,
    pub title: String,
    pub body: String,
    pub tag: Vec<String>,
}

#[derive(Clone, Copy, Debug)]
pub struct NewPostResponse {
    pub error: BlogError,
}

#[derive(Clone, Copy, Debug)]
pub struct CountPostsResponse {
    pub error: BlogError,
    pub count: i64,
}

/// Mathematical image of a post as a reader sees it.
pub struct PublicPostV {
    pub title: Seq<char>,
    pub body: Seq<char>,
    pub author: i32,
    pub tags: Seq<Seq<char>>,
    pub created_at: i64,
    pub modified_at: i64,
}

/// A post as a reader sees it: the stored tag string split back
/// into the tag list.
#[derive(Clone, Debug)]
pub struct PublicPost {
    pub title: String,
    pub body: String,
    pub author: i32,
    pub tags: Vec<String>,
    pub created_at: i64,
    pub modified_at: i64,
}

impl View for PublicPost {
    type V = PublicPostV;

    open spec fn view(&self) -> PublicPostV {
        PublicPostV {
            title: self.title@,
            body: self.body@,
            author: self.author,
            tags: self.tags.deep_view(),
            created_at: self.created_at,
            modified_at: self.modified_at,
        }
    }
}

#[derive(Clone, Debug)]
pub struct ViewPostResponse {
    pub error: BlogError,
    pub post: Option<PublicPost>,
}

#[derive(Clone, Copy, Debug)]
pub struct DeletePostResponse {
    pub error: BlogError,
}

#[derive(Clone, Copy, Debug)]
pub struct EditPostResponse {
    pub error: BlogError,
}

/// What a reader is shown of a post row.
pub open spec fn public_post_v(p: PostV) -> PublicPostV {
    PublicPostV {
        title: p.title,
        body: p.body,
        author: p.author,
        tags: split_spec(p.tags),
        created_at: p.created_at,
        modified_at: p.modified_at,
    }
}

/// Outcome of a post creation: only a valid claim that resolves to
/// an `Admin` user may insert, and every new post is public
/// (permission 0), authored by the claimed user. `DatabaseError` is
/// a storage failure: here, a spent id space.
pub open spec fn new_post_result_v(
    s: StoreV,
    claim: Option<i32>,
    title: Seq<char>,
    body: Seq<char>,
    tags_joined: Seq<char>,
    now: i64,
) -> (StoreV, BlogError) {
    match claim {
        Option::None => (s, BlogError::AuthError),
        Option::Some(pk) => match user_with_id(s.users, pk) {
            Option::None => (s, BlogError::AuthError),
            Option::Some(u) => if u.permission != level_code(AccountLevel::Admin) {
                (s, BlogError::AuthError)
            } else if !create_allowed(s) {
                (s, BlogError::DatabaseError)
            } else {
                (create_post_v(s, title, body, pk, tags_joined, 0, now), BlogError::Nothing)
            },
        },
    }
}

/// Outcome of a view: a public post (permission 0) is shown to
/// anyone; a restricted one only to a claimed user whose level code
/// equals the post's permission. An absent post, and a level
/// mismatch, both answer `DatabaseError`; an absent claim answers
/// `AuthError`; a claim whose user is gone answers
/// `PermissionError`.
pub open spec fn view_post_result_v(s: StoreV, claim: Option<i32>, id: i32) -> (
    BlogError,
    Option<PublicPostV>,
) {
    match post_with_id(s.posts, id) {
        Option::None => (BlogError::DatabaseError, Option::None),
        Option::Some(p) => if p.permission == 0 {
            (BlogError::Nothing, Option::Some(public_post_v(p)))
        } else {
            match claim {
                Option::None => (BlogError::AuthError, Option::None),
                Option::Some(pk) => match user_with_id(s.users, pk) {
                    Option::None => (BlogError::PermissionError, Option::None),
                    Option::Some(u) => if p.permission == u.permission {
                        (BlogError::Nothing, Option::Some(public_post_v(p)))
                    } else {
                        (BlogError::DatabaseError, Option::None)
                    },
                },
            }
        },
    }
}

/// Outcome of a delete: only the author's claim removes the row; an
/// absent post answers `DatabaseError`, an absent claim or another
/// author `AuthError`.
pub open spec fn delete_post_result_v(s: StoreV, claim: Option<i32>, id: i32) -> (
    StoreV,
    BlogError,
) {
    match claim {
        Option::None => (s, BlogError::AuthError),
        Option::Some(pk) => match post_with_id(s.posts, id) {
            Option::None => (s, BlogError::DatabaseError),
            Option::Some(p) => if p.author != pk {
                (s, BlogError::AuthError)
            } else {
                (delete_post_v(s, id), BlogError::Nothing)
            },
        },
    }
}

/// Outcome of an edit: only the author's claim overwrites the row's
/// title, body and tags, advancing its modification time; an absent
/// post answers `DatabaseError`, an absent claim or another author
/// `AuthError`.
pub open spec fn edit_post_result_v(
    s: StoreV,
    claim: Option<i32>,
    id: i32,
    title: Seq<char>,
    body: Seq<char>,
    tags_joined: Seq<char>,
    now: i64,
) -> (StoreV, BlogError) {
    match claim {
        Option::None => (s, BlogError::AuthError),
        Option::Some(pk) => match post_with_id(s.posts, id) {
            Option::None => (s, BlogError::DatabaseError),
            Option::Some(p) => if p.author != pk {
                (s, BlogError::AuthError)
            } else {
                (edit_post_v(s, id, title, body, tags_joined, now), BlogError::Nothing)
            },
        },
    }
}

/// Post creation once token verification has spoken: exactly
/// `new_post_result_v` of the claim.
pub fn new_post_for_claims(
    store: &mut Store,
    claim: Option<i32>,
    form: &NewPostForm,
    now: i64,
) -> (r: NewPostResponse)
    requires
        old(store).wf(),
    ensures
        final(store).wf(),
        (final(store)@, r.error) == new_post_result_v(
            old(store)@,
            claim,
            form.title@,
            form.body@,
            join_spec(form.tag.deep_view()),
            now,
        ),
{
    let pk = match claim {
        None => {
            return NewPostResponse { error: BlogError::AuthError };
        },
        Some(pk) => pk,
    };
    let user = match store.find_user(pk) {
        None => {
            return NewPostResponse { error: BlogError::AuthError };
        },
        Some(u) => u,
    };
    if user.permission != level_to_code(AccountLevel::Admin) {
        return NewPostResponse { error: BlogError::AuthError };
    }
    let inserted = store.create_post(
        form.title.as_str(),
        form.body.as_str(),
        pk,
        &form.tag,
        0,
        now,
    );
    match inserted {
        Some(_) => NewPostResponse { error: BlogError::Nothing },
        None => NewPostResponse { error: BlogError::DatabaseError },
    }
}

/// Create a post. Token verification decides the claim; whatever it
/// said, store and answer are exactly `new_post_result_v` of it.
pub fn new_post(
    store: &mut Store,
    secret: &str,
    token: &str,
    form: &NewPostForm,
    now: i64,
) -> (r: NewPostResponse)
    requires
        old(store).wf(),
    ensures
        final(store).wf(),
        exists|claim: Option<i32>|
            (final(store)@, r.error) == #[trigger] new_post_result_v(
                old(store)@,
                claim,
                form.title@,
                form.body@,
                join_spec(form.tag.deep_view()),
                now,
            ),
{
    let claim = verify_token(secret, token);
    let r = new_post_for_claims(store, claim, form, now);
    proof {
        assert((final(store)@, r.error) == new_post_result_v(
            old(store)@,
            claim,
            form.title@,
            form.body@,
            join_spec(form.tag.deep_view()),
            now,
        ));
    }
    r
}

/// The view of a post once token verification has spoken: exactly
/// `view_post_result_v` of the claim.
pub fn view_post_for_claims(store: &Store, claim: Option<i32>, id: i32) -> (r: ViewPostResponse)
    ensures
        r.error == view_post_result_v(store@, claim, id).0,
        match r.post {
            Option::None => view_post_result_v(store@, claim, id).1 is None,
            Option::Some(pp) => view_post_result_v(store@, claim, id).1 == Some(pp@),
        },
{
    let post = match store.by_post_id(id) {
        None => {
            return ViewPostResponse { error: BlogError::DatabaseError, post: None };
        },
        Some(p) => p,
    };
    if post.permission == 0 {
        let tags = split_tags(post.tags.as_str());
        return ViewPostResponse {
            error: BlogError::Nothing,
            post: Some(
                PublicPost {
                    title: post.title,
                    body: post.body,
                    author: post.author,
                    tags: tags,
                    created_at: post.created_at,
                    modified_at: post.modified_at,
                },
            ),
        };
    }
    let pk = match claim {
        None => {
            return ViewPostResponse { error: BlogError::AuthError, post: None };
        },
        Some(pk) => pk,
    };
    let user = match store.find_user(pk) {
        None => {
            return ViewPostResponse { error: BlogError::PermissionError, post: None };
        },
        Some(u) => u,
    };
    if post.permission == user.permission {
        let tags = split_tags(post.tags.as_str());
        ViewPostResponse {
            error: BlogError::Nothing,
            post: Some(
                PublicPost {
                    title: post.title,
                    body: post.body,
                    author: post.author,
                    tags: tags,
                    created_at: post.created_at,
                    modified_at: post.modified_at,
                },
            ),
        }
    } else {
        ViewPostResponse { error: BlogError::DatabaseError, post: None }
    }
}

/// View a post. Token verification decides the claim; whatever it
/// said, the answer is exactly `view_post_result_v` of it.
pub fn view_post(store: &Store, secret: &str, token: &str, form: &ViewPostForm) -> (r:
    ViewPostResponse)
    ensures
        exists|claim: Option<i32>|
            #![trigger view_post_result_v(store@, claim, form.id as i32)]
            r.error == view_post_result_v(store@, claim, form.id as i32).0 && (match r.post {
                Option::None => view_post_result_v(store@, claim, form.id as i32).1 is None,
                Option::Some(pp) => view_post_result_v(store@, claim, form.id as i32).1 == Some(
                    pp@,
                ),
            }),
{
    let claim = verify_token(secret, token);
    let id = #[verifier::truncate] (form.id as i32);
    let r = view_post_for_claims(store, claim, id);
    proof {
        assert(r.error == view_post_result_v(store@, claim, form.id as i32).0 && (match r.post {
            Option::None => view_post_result_v(store@, claim, form.id as i32).1 is None,
            Option::Some(pp) => view_post_result_v(store@, claim, form.id as i32).1 == Some(pp@),
        }));
    }
    r
}

/// A delete once token verification has spoken: exactly
/// `delete_post_result_v` of the claim.
pub fn delete_post_for_claims(store: &mut Store, claim: Option<i32>, id: i32) -> (r:
    DeletePostResponse)
    requires
        old(store).wf(),
    ensures
        final(store).wf(),
        (final(store)@, r.error) == delete_post_result_v(old(store)@, claim, id),
{
    let pk = match claim {
        None => {
            return DeletePostResponse { error: BlogError::AuthError };
        },
        Some(pk) => pk,
    };
    let post = match store.by_post_id(id) {
        None => {
            return DeletePostResponse { error: BlogError::DatabaseError };
        },
        Some(p) => p,
    };
    if post.author != pk {
        return DeletePostResponse { error: BlogError::AuthError };
    }
    store.delete_post(id);
    DeletePostResponse { error: BlogError::Nothing }
}

/// Delete a post. Token verification decides the claim; whatever it
/// said, store and answer are exactly `delete_post_result_v` of it.
pub fn delete_post(store: &mut Store, secret: &str, token: &str, form: &DeletePostForm) -> (r:
    DeletePostResponse)
    requires
        old(store).wf(),
    ensures
        final(store).wf(),
        exists|claim: Option<i32>|
            (final(store)@, r.error) == #[trigger] delete_post_result_v(
                old(store)@,
                claim,
                form.id as i32,
            ),
{
    let claim = verify_token(secret, token);
    let id = #[verifier::truncate] (form.id as i32);
    let r = delete_post_for_claims(store, claim, id);
    proof {
        assert((final(store)@, r.error) == delete_post_result_v(
            old(store)@,
            claim,
            form.id as i32,
        ));
    }
    r
}

/// An edit once token verification has spoken: exactly
/// `edit_post_result_v` of the claim.
pub fn edit_post_for_claims(
    store: &mut Store,
    claim: Option<i32>,
    form: &EditPostForm,
    now: i64,
) -> (r: EditPostResponse)
    requires
        old(store).wf(),
    ensures
        final(store).wf(),
        (final(store)@, r.error) == edit_post_result_v(
            old(store)@,
            claim,
            form.id as i32,
            form.title@,
            form.body@,
            join_spec(form.tag.deep_view()),
            now,
        ),
{
    let id = #[verifier::truncate] (form.id as i32);
    let pk = match claim {
        None => {
            return EditPostResponse { error: BlogError::AuthError };
        },
        Some(pk) => pk,
    };
    let post = match store.by_post_id(id) {
        None => {
            return EditPostResponse { error: BlogError::DatabaseError };
        },
        Some(p) => p,
    };
    if post.author != pk {
        return EditPostResponse { error: BlogError::AuthError };
    }
    let joined = crate::tags::join_tags(&form.tag);
    store.edit_post(id, form.title.as_str(), form.body.as_str(), joined.as_str(), now);
    EditPostResponse { error: BlogError::Nothing }
}

/// Edit a post. Token verification decides the claim; whatever it
/// said, store and answer are exactly `edit_post_result_v` of it.
pub fn edit_post(
    store: &mut Store,
    secret: &str,
    token: &str,
    form: &EditPostForm,
    now: i64,
) -> (r: EditPostResponse)
    requires
        old(store).wf(),
    ensures
        final(store).wf(),
        exists|claim: Option<i32>|
            (final(store)@, r.error) == #[trigger] edit_post_result_v(
                old(store)@,
                claim,
                form.id as i32,
                form.title@,
                form.body@,
                join_spec(form.tag.deep_view()),
                now,
            ),
{
    let claim = verify_token(secret, token);
    let r = edit_post_for_claims(store, claim, form, now);
    proof {
        assert((final(store)@, r.error) == edit_post_result_v(
            old(store)@,
            claim,
            form.id as i32,
            form.title@,
            form.body@,
            join_spec(form.tag.deep_view()),
            now,
        ));
    }
    r
}

/// How many posts there are; storage cannot fail here, so the error
/// field always carries the success sentinel.
pub fn count_posts(store: &Store) -> (r: CountPostsResponse)
    requires
        store.wf(),
    ensures
        r.error == BlogError::Nothing,
        r.count == store@.posts.len(),
{
    CountPostsResponse { error: BlogError::Nothing, count: store.count_posts() }
}

/// Law: a claim that resolves to a user below `Admin` cannot create
/// a post: the answer is `AuthError` and the store is unchanged.
pub proof fn lemma_new_post_needs_admin(
    s: StoreV,
    pk: i32,
    title: Seq<char>,
    body: Seq<char>,
    tags_joined: Seq<char>,
    now: i64,
)
    requires
        user_with_id(s.users, pk) matches Some(u) && u.permission != level_code(
            AccountLevel::Admin,
        ),
    ensures
        new_post_result_v(s, Some(pk), title, body, tags_joined, now) == (s, BlogError::AuthError),
{
}

/// Law: a public post (permission 0) is shown without any claim.
pub proof fn lemma_view_public_post_no_token(s: StoreV, id: i32)
    requires
        post_with_id(s.posts, id) matches Some(p) && p.permission == 0,
    ensures
        view_post_result_v(s, None, id) == (
            BlogError::Nothing,
            Some(public_post_v(post_with_id(s.posts, id).unwrap())),
        ),
{
}

/// Law: a restricted post is withheld from a claimed user whose
/// level code differs from the post's permission.
pub proof fn lemma_view_restricted_post_mismatch(s: StoreV, pk: i32, id: i32)
    requires
        post_with_id(s.posts, id) matches Some(p) && p.permission != 0,
        user_with_id(s.users, pk) matches Some(u) && u.permission != post_with_id(
            s.posts,
            id,
        ).unwrap().permission,
    ensures
        view_post_result_v(s, Some(pk), id).1 is None,
        view_post_result_v(s, Some(pk), id).0 == BlogError::DatabaseError,
{
}

/// Law: a claim other than the author's neither edits nor deletes a
/// post: both answer `AuthError` and leave the store unchanged.
pub proof fn lemma_edit_delete_need_author(
    s: StoreV,
    pk: i32,
    id: i32,
    title: Seq<char>,
    body: Seq<char>,
    tags_joined: Seq<char>,
    now: i64,
)
    requires
        post_with_id(s.posts, id) matches Some(p) && p.author != pk,
    ensures
        edit_post_result_v(s, Some(pk), id, title, body, tags_joined, now) == (
            s,
            BlogError::AuthError,
        ),
        delete_post_result_v(s, Some(pk), id) == (s, BlogError::AuthError),
{
}

/// Law: the author's claim edits the post: the answer is the success
/// sentinel, and afterwards the row holds the new title, body and
/// tag string, with its modification time advanced to `now` and its
/// author, creation time and permission kept.
pub proof fn lemma_edit_by_author(
    s: StoreV,
    pk: i32,
    id: i32,
    title: Seq<char>,
    body: Seq<char>,
    tags_joined: Seq<char>,
    now: i64,
)
    requires
        post_with_id(s.posts, id) matches Some(p) && p.author == pk,
    ensures
        ({
            let (s1, e) = edit_post_result_v(s, Some(pk), id, title, body, tags_joined, now);
            let p = post_with_id(s.posts, id).unwrap();
            &&& e == BlogError::Nothing
            &&& post_with_id(s1.posts, id) == Some(edited_post_v(p, title, body, tags_joined, now))
            &&& edited_post_v(p, title, body, tags_joined, now).modified_at == now
        }),
{
    let i = post_index_by_id(s.posts, id);
    lemma_post_index_by_id(s.posts, id);
    let p = s.posts[i];
    let p2 = edited_post_v(p, title, body, tags_joined, now);
    let posts1 = s.posts.update(i, p2);
    assert(posts1[i].id == id);
    assert(forall|k: int| 0 <= k < i ==> posts1[k] == s.posts[k]);
    lemma_post_index_by_id(posts1, id);
    let j = post_index_by_id(posts1, id);
    assert(0 <= j <= i);
    if j < i {
        assert(posts1[j].id == id);
        assert(s.posts[j].id == id);
    }
    assert(j == i);
}

/// Law: the author's claim deletes the post: the answer is the
/// success sentinel and the row is gone.
pub proof fn lemma_delete_by_author(s: StoreV, pk: i32, id: i32)
    requires
        posts_wf(s),
        post_with_id(s.posts, id) matches Some(p) && p.author == pk,
    ensures
        ({
            let (s1, e) = delete_post_result_v(s, Some(pk), id);
            &&& e == BlogError::Nothing
            &&& post_with_id(s1.posts, id) is None
            &&& s1.posts.len() == s.posts.len() - 1
        }),
{
    let i = post_index_by_id(s.posts, id);
    lemma_post_index_by_id(s.posts, id);
    let posts1 = s.posts.remove(i);
    assert(forall|k: int| 0 <= k < i ==> posts1[k] == s.posts[k]);
    assert(forall|k: int| i <= k < posts1.len() ==> posts1[k] == s.posts[k + 1]);
    assert(forall|k: int| 0 <= k < posts1.len() ==> (#[trigger] posts1[k]).id != id);
    lemma_post_index_by_id(posts1, id);
}

} // verus!
