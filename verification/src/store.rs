use vstd::prelude::*;

use crate::crypto::{hash_password, password_hash_of};
use crate::models::{AccountLevel, Post, PostV, User, UserV, level_code, level_to_code};
use crate::strings::str_eq;
use crate::tags::{join_spec, join_tags};

verus! {

/// Mathematical image of the whole store.
pub struct StoreV {
    pub users: Seq<UserV>,
    pub posts: Seq<PostV>,
    pub next_user_id: i32,
    pub next_post_id: i32,
}

/// The two tables and the id counters the storage assigns from.
/// The relational engine behind the original tables is an external
/// collaborator; the store keeps the same rows in memory and
/// enforces the same constraints.
pub struct Store {
    pub users: Vec<User>,
    pub posts: Vec<Post>,
    pub next_user_id: i32,
    pub next_post_id: i32,
}

impl View for Store {
    type V = StoreV;

    open spec fn view(&self) -> StoreV {
        StoreV {
            users: self.users@.map_values(|u: User| u@),
            posts: self.posts@.map_values(|p: Post| p@),
            next_user_id: self.next_user_id,
            next_post_id: self.next_post_id,
        }
    }
}

/// The `users` table's invariant: ids are unique, positive and below
/// the next free id, and usernames and emails are unique.
pub open spec fn users_wf(s: StoreV) -> bool {
    &&& 1 <= s.next_user_id
    &&& s.users.len() < s.next_user_id
    &&& forall|i: int|
        0 <= i < s.users.len() ==> 1 <= (#[trigger] s.users[i]).id < s.next_user_id
    &&& forall|i: int, j: int|
        #![trigger s.users[i], s.users[j]]
        0 <= i < j < s.users.len() ==> s.users[i].id != s.users[j].id
            && s.users[i].username != s.users[j].username && s.users[i].email
            != s.users[j].email
}

/// The `posts` table's invariant: ids are unique, positive and below
/// the next free id.
pub open spec fn posts_wf(s: StoreV) -> bool {
    &&& 1 <= s.next_post_id
    &&& s.posts.len() < s.next_post_id
    &&& forall|i: int|
        0 <= i < s.posts.len() ==> 1 <= (#[trigger] s.posts[i]).id < s.next_post_id
    &&& forall|i: int, j: int|
        #![trigger s.posts[i], s.posts[j]]
        0 <= i < j < s.posts.len() ==> s.posts[i].id != s.posts[j].id
}

pub open spec fn store_wf(s: StoreV) -> bool {
    users_wf(s) && posts_wf(s)
}

/// Index of the first user with this username, or -1.
pub open spec fn user_index_by_name(users: Seq<UserV>, username: Seq<char>) -> int
    decreases users.len(),
{
    if users.len() == 0 {
        -1
    } else if users[0].username == username {
        0
    } else {
        let r = user_index_by_name(users.drop_first(), username);
        if r < 0 {
            -1
        } else {
            1 + r
        }
    }
}

/// Index of the first user with this email, or -1.
pub open spec fn user_index_by_email(users: Seq<UserV>, email: Seq<char>) -> int
    decreases users.len(),
{
    if users.len() == 0 {
        -1
    } else if users[0].email == email {
        0
    } else {
        let r = user_index_by_email(users.drop_first(), email);
        if r < 0 {
            -1
        } else {
            1 + r
        }
    }
}

/// Index of the first user with this id, or -1.
pub open spec fn user_index_by_id(users: Seq<UserV>, pk: i32) -> int
    decreases users.len(),
{
    if users.len() == 0 {
        -1
    } else if users[0].id == pk {
        0
    } else {
        let r = user_index_by_id(users.drop_first(), pk);
        if r < 0 {
            -1
        } else {
            1 + r
        }
    }
}

/// Index of the first post with this id, or -1.
pub open spec fn post_index_by_id(posts: Seq<PostV>, pk: i32) -> int
    decreases posts.len(),
{
    if posts.len() == 0 {
        -1
    } else if posts[0].id == pk {
        0
    } else {
        let r = post_index_by_id(posts.drop_first(), pk);
        if r < 0 {
            -1
        } else {
            1 + r
        }
    }
}

/// The user a claimed id resolves to, if any.
pub open spec fn user_with_id(users: Seq<UserV>, pk: i32) -> Option<UserV> {
    let i = user_index_by_id(users, pk);
    if i >= 0 {
        Some(users[i])
    } else {
        None
    }
}

/// The post an id resolves to, if any.
pub open spec fn post_with_id(posts: Seq<PostV>, pk: i32) -> Option<PostV> {
    let i = post_index_by_id(posts, pk);
    if i >= 0 {
        Some(posts[i])
    } else {
        None
    }
}

/// `user_index_by_name` is in bounds, lands on a user with the
/// username, and is the first such index; -1 means there is none.
pub proof fn lemma_user_index_by_name(users: Seq<UserV>, username: Seq<char>)
    ensures
        ({
            let i = user_index_by_name(users, username);
            &&& -1 <= i < users.len()
            &&& i >= 0 ==> users[i].username == username
            &&& forall|k: int|
                0 <= k < users.len() && (#[trigger] users[k]).username == username ==> 0 <= i <= k
        }),
    decreases users.len(),
{
    if users.len() == 0 {
    } else if users[0].username == username {
    } else {
        lemma_user_index_by_name(users.drop_first(), username);
        assert(forall|k: int| 1 <= k < users.len() ==> users[k] == users.drop_first()[k - 1]);
    }
}

/// As `lemma_user_index_by_name`, for emails.
pub proof fn lemma_user_index_by_email(users: Seq<UserV>, email: Seq<char>)
    ensures
        ({
            let i = user_index_by_email(users, email);
            &&& -1 <= i < users.len()
            &&& i >= 0 ==> users[i].email == email
            &&& forall|k: int|
                0 <= k < users.len() && (#[trigger] users[k]).email == email ==> 0 <= i <= k
        }),
    decreases users.len(),
{
    if users.len() == 0 {
    } else if users[0].email == email {
    } else {
        lemma_user_index_by_email(users.drop_first(), email);
        assert(forall|k: int| 1 <= k < users.len() ==> users[k] == users.drop_first()[k - 1]);
    }
}

/// As `lemma_user_index_by_name`, for user ids.
pub proof fn lemma_user_index_by_id(users: Seq<UserV>, pk: i32)
    ensures
        ({
            let i = user_index_by_id(users, pk);
            &&& -1 <= i < users.len()
            &&& i >= 0 ==> users[i].id == pk
            &&& forall|k: int| 0 <= k < users.len() && (#[trigger] users[k]).id == pk ==> 0 <= i <= k
        }),
    decreases users.len(),
{
    if users.len() == 0 {
    } else if users[0].id == pk {
    } else {
        lemma_user_index_by_id(users.drop_first(), pk);
        assert(forall|k: int| 1 <= k < users.len() ==> users[k] == users.drop_first()[k - 1]);
    }
}

/// As `lemma_user_index_by_name`, for post ids.
pub proof fn lemma_post_index_by_id(posts: Seq<PostV>, pk: i32)
    ensures
        ({
            let i = post_index_by_id(posts, pk);
            &&& -1 <= i < posts.len()
            &&& i >= 0 ==> posts[i].id == pk
            &&& forall|k: int| 0 <= k < posts.len() && (#[trigger] posts[k]).id == pk ==> 0 <= i <= k
        }),
    decreases posts.len(),
{
    if posts.len() == 0 {
    } else if posts[0].id == pk {
    } else {
        lemma_post_index_by_id(posts.drop_first(), pk);
        assert(forall|k: int| 1 <= k < posts.len() ==> posts[k] == posts.drop_first()[k - 1]);
    }
}

/// A user row exactly like `u`.
fn clone_user(u: &User) -> (r: User)
    ensures
        r@ == u@,
{
    User {
        id: u.id,
        username: u.username.clone(),
        pass: u.pass.clone(),
        email: u.email.clone(),
        nickname: u.nickname.clone(),
        permission: u.permission,
    }
}

/// A post row exactly like `p`.
fn clone_post(p: &Post) -> (r: Post)
    ensures
        r@ == p@,
{
    Post {
        id: p.id,
        title: p.title.clone(),
        body: p.body.clone(),
        author: p.author,
        tags: p.tags.clone(),
        permission: p.permission,
        created_at: p.created_at,
        modified_at: p.modified_at,
    }
}

/// Whether a registration may insert: username and email free, and
/// an id left to assign.
pub open spec fn register_allowed(s: StoreV, username: Seq<char>, email: Seq<char>) -> bool {
    &&& user_index_by_name(s.users, username) < 0
    &&& user_index_by_email(s.users, email) < 0
    &&& s.next_user_id < i32::MAX
}

/// The row a registration inserts.
pub open spec fn new_user_v(
    s: StoreV,
    username: Seq<char>,
    pass_hash: Seq<char>,
    email: Seq<char>,
    nickname: Seq<char>,
    permission: i32,
) -> UserV {
    UserV {
        id: s.next_user_id,
        username: username,
        pass: pass_hash,
        email: email,
        nickname: nickname,
        permission: permission,
    }
}

/// The store after a successful registration.
pub open spec fn register_v(
    s: StoreV,
    username: Seq<char>,
    pass_hash: Seq<char>,
    email: Seq<char>,
    nickname: Seq<char>,
    permission: i32,
) -> StoreV {
    StoreV {
        users: s.users.push(new_user_v(s, username, pass_hash, email, nickname, permission)),
        next_user_id: (s.next_user_id + 1) as i32,
        ..s
    }
}

/// Outcome of a username/password check against the `users` table:
/// the error and the matched user's id (-1 when none was issued).
pub open spec fn login_v(s: StoreV, username: Seq<char>, pass_hash: Seq<char>) -> (
    crate::errors::AccountError,
    i32,
) {
    let i = user_index_by_name(s.users, username);
    if i < 0 {
        (crate::errors::AccountError::UserNotExists, -1i32)
    } else if s.users[i].pass == pass_hash {
        (crate::errors::AccountError::Nothing, s.users[i].id)
    } else {
        (crate::errors::AccountError::PassNotMatched, -1i32)
    }
}


/// Whether a post insert may assign an id.
pub open spec fn create_allowed(s: StoreV) -> bool {
    s.next_post_id < i32::MAX
}

/// The row a post insert creates: both timestamps are the insert
/// time.
pub open spec fn new_post_v(
    s: StoreV,
    title: Seq<char>,
    body: Seq<char>,
    author: i32,
    tags_joined: Seq<char>,
    permission: i32,
    now: i64,
) -> PostV {
    PostV {
        id: s.next_post_id,
        title: title,
        body: body,
        author: author,
        tags: tags_joined,
        permission: permission,
        created_at: now,
        modified_at: now,
    }
}

/// The store after a successful post insert.
pub open spec fn create_post_v(
    s: StoreV,
    title: Seq<char>,
    body: Seq<char>,
    author: i32,
    tags_joined: Seq<char>,
    permission: i32,
    now: i64,
) -> StoreV {
    StoreV {
        posts: s.posts.push(new_post_v(s, title, body, author, tags_joined, permission, now)),
        next_post_id: (s.next_post_id + 1) as i32,
        ..s
    }
}

/// The store after a delete: the row with this id is gone; without
/// one, nothing changes.
pub open spec fn delete_post_v(s: StoreV, pk: i32) -> StoreV {
    let i = post_index_by_id(s.posts, pk);
    if i < 0 {
        s
    } else {
        StoreV { posts: s.posts.remove(i), ..s }
    }
}

/// A post row after an edit: new title, body and tag string, the
/// modification time advanced to `now`, everything else kept.
pub open spec fn edited_post_v(
    p: PostV,
    title: Seq<char>,
    body: Seq<char>,
    tags_joined: Seq<char>,
    now: i64,
) -> PostV {
    PostV { title: title, body: body, tags: tags_joined, modified_at: now, ..p }
}

/// The store after an edit: the row with this id is overwritten;
/// without one, nothing changes.
pub open spec fn edit_post_v(
    s: StoreV,
    pk: i32,
    title: Seq<char>,
    body: Seq<char>,
    tags_joined: Seq<char>,
    now: i64,
) -> StoreV {
    let i = post_index_by_id(s.posts, pk);
    if i < 0 {
        s
    } else {
        StoreV {
            posts: s.posts.update(i, edited_post_v(s.posts[i], title, body, tags_joined, now)),
            ..s
        }
    }
}

impl Store {
    pub open spec fn wf(&self) -> bool {
        store_wf(self@)
    }

    /// An empty store: no rows, ids start at 1.
    pub fn new() -> (s: Store)
        ensures
            s@ == (StoreV {
                users: Seq::<UserV>::empty(),
                posts: Seq::<PostV>::empty(),
                next_user_id: 1,
                next_post_id: 1,
            }),
            s.wf(),
    {
        let s = Store { users: Vec::new(), posts: Vec::new(), next_user_id: 1, next_post_id: 1 };
        proof {
            assert(s@.users =~= Seq::<UserV>::empty());
            assert(s@.posts =~= Seq::<PostV>::empty());
        }
        s
    }

    /// The user a primary key resolves to.
    pub fn find_user(&self, pk: i32) -> (r: Option<User>)
        ensures
            match r {
                Some(u) => user_with_id(self@.users, pk) == Some(u@),
                None => user_with_id(self@.users, pk) is None,
            },
    {
        let mut i: usize = 0;
        while i < self.users.len()
            invariant
                i <= self.users.len(),
                forall|k: int| 0 <= k < i ==> (#[trigger] self@.users[k]).id != pk,
            decreases self.users.len() - i,
        {
            if self.users[i].id == pk {
                proof {
                    assert(self@.users[i as int] == self.users@[i as int]@);
                    lemma_user_index_by_id(self@.users, pk);
                    assert(user_index_by_id(self@.users, pk) == i);
                }
                return Some(clone_user(&self.users[i]));
            }
            proof {
                assert(self@.users[i as int] == self.users@[i as int]@);
                assert(self@.users[i as int].id != pk);
            }
            i += 1;
        }
        proof {
            lemma_user_index_by_id(self@.users, pk);
        }
        None
    }

    /// All users with this username: under the table invariant, at
    /// most one.
    pub fn by_username(&self, username: &str) -> (r: Vec<User>)
        ensures
            ({
                let i = user_index_by_name(self@.users, username@);
                if i >= 0 {
                    r@.len() == 1 && r@[0]@ == self@.users[i]
                } else {
                    r@.len() == 0
                }
            }),
    {
        let mut i: usize = 0;
        while i < self.users.len()
            invariant
                i <= self.users.len(),
                forall|k: int| 0 <= k < i ==> (#[trigger] self@.users[k]).username != username@,
            decreases self.users.len() - i,
        {
            if str_eq(self.users[i].username.as_str(), username) {
                proof {
                    assert(self@.users[i as int] == self.users@[i as int]@);
                    lemma_user_index_by_name(self@.users, username@);
                    assert(user_index_by_name(self@.users, username@) == i);
                }
                let mut r: Vec<User> = Vec::new();
                r.push(clone_user(&self.users[i]));
                return r;
            }
            proof {
                assert(self@.users[i as int] == self.users@[i as int]@);
                assert(self@.users[i as int].username != username@);
            }
            i += 1;
        }
        proof {
            lemma_user_index_by_name(self@.users, username@);
        }
        Vec::new()
    }

    /// All users with this email: under the table invariant, at most
    /// one.
    pub fn by_email(&self, email: &str) -> (r: Vec<User>)
        ensures
            ({
                let i = user_index_by_email(self@.users, email@);
                if i >= 0 {
                    r@.len() == 1 && r@[0]@ == self@.users[i]
                } else {
                    r@.len() == 0
                }
            }),
    {
        let mut i: usize = 0;
        while i < self.users.len()
            invariant
                i <= self.users.len(),
                forall|k: int| 0 <= k < i ==> (#[trigger] self@.users[k]).email != email@,
            decreases self.users.len() - i,
        {
            if str_eq(self.users[i].email.as_str(), email) {
                proof {
                    assert(self@.users[i as int] == self.users@[i as int]@);
                    lemma_user_index_by_email(self@.users, email@);
                    assert(user_index_by_email(self@.users, email@) == i);
                }
                let mut r: Vec<User> = Vec::new();
                r.push(clone_user(&self.users[i]));
                return r;
            }
            proof {
                assert(self@.users[i as int] == self.users@[i as int]@);
                assert(self@.users[i as int].email != email@);
            }
            i += 1;
        }
        proof {
            lemma_user_index_by_email(self@.users, email@);
        }
        Vec::new()
    }

    /// Insert a user row: hashes the password and assigns the next
    /// id. Refuses a taken username or email (the storage-level
    /// uniqueness constraint) and a spent id space.
    pub fn register(
        &mut self,
        username: &str,
        pass: &str,
        email: &str,
        nickname: &str,
        permission: AccountLevel,
    ) -> (r: Option<User>)
        requires
            old(self).wf(),
        ensures
            final(self).wf(),
            register_allowed(old(self)@, username@, email@) ==> final(self)@ == register_v(
                old(self)@,
                username@,
                password_hash_of(pass@),
                email@,
                nickname@,
                level_code(permission),
            ) && (r matches Some(u) && u@ == new_user_v(
                old(self)@,
                username@,
                password_hash_of(pass@),
                email@,
                nickname@,
                level_code(permission),
            )),
            !register_allowed(old(self)@, username@, email@) ==> r is None && final(self)@ == old(
                self,
            )@,
    {
        proof {
            lemma_user_index_by_name(self@.users, username@);
            lemma_user_index_by_email(self@.users, email@);
        }
        if !self.by_username(username).is_empty() {
            return None;
        }
        if !self.by_email(email).is_empty() {
            return None;
        }
        if self.next_user_id == i32::MAX {
            return None;
        }
        let user = User {
            id: self.next_user_id,
            username: username.to_owned(),
            pass: hash_password(pass),
            email: email.to_owned(),
            nickname: nickname.to_owned(),
            permission: level_to_code(permission),
        };
        let copy = clone_user(&user);
        let ghost prev = self@;
        self.users.push(user);
        self.next_user_id = self.next_user_id + 1;
        proof {
            assert(self@.users =~= prev.users.push(copy@));
            assert(final(self)@ == register_v(
                prev,
                username@,
                password_hash_of(pass@),
                email@,
                nickname@,
                level_code(permission),
            ));
        }
        Some(copy)
    }

    /// Check a username and password: the outcome and the matched
    /// user's id, exactly as `login_v` has it.
    pub fn login(&self, username: &str, pass: &str) -> (r: (crate::errors::AccountError, i32))
        ensures
            r == login_v(self@, username@, password_hash_of(pass@)),
    {
        let hashed = hash_password(pass);
        let mut i: usize = 0;
        while i < self.users.len()
            invariant
                i <= self.users.len(),
                hashed@ == password_hash_of(pass@),
                forall|k: int| 0 <= k < i ==> (#[trigger] self@.users[k]).username != username@,
            decreases self.users.len() - i,
        {
            if str_eq(self.users[i].username.as_str(), username) {
                proof {
                    assert(self@.users[i as int] == self.users@[i as int]@);
                    lemma_user_index_by_name(self@.users, username@);
                    assert(user_index_by_name(self@.users, username@) == i);
                }
                if self.users[i].pass == hashed {
                    return (crate::errors::AccountError::Nothing, self.users[i].id);
                } else {
                    return (crate::errors::AccountError::PassNotMatched, -1);
                }
            }
            proof {
                assert(self@.users[i as int] == self.users@[i as int]@);
                assert(self@.users[i as int].username != username@);
            }
            i += 1;
        }
        proof {
            lemma_user_index_by_name(self@.users, username@);
        }
        (crate::errors::AccountError::UserNotExists, -1)
    }

    /// The post a primary key resolves to.
    pub fn by_post_id(&self, pk: i32) -> (r: Option<Post>)
        ensures
            match r {
                Some(p) => post_with_id(self@.posts, pk) == Some(p@),
                None => post_with_id(self@.posts, pk) is None,
            },
    {
        let mut i: usize = 0;
        while i < self.posts.len()
            invariant
                i <= self.posts.len(),
                forall|k: int| 0 <= k < i ==> (#[trigger] self@.posts[k]).id != pk,
            decreases self.posts.len() - i,
        {
            if self.posts[i].id == pk {
                proof {
                    assert(self@.posts[i as int] == self.posts@[i as int]@);
                    lemma_post_index_by_id(self@.posts, pk);
                    assert(post_index_by_id(self@.posts, pk) == i);
                }
                return Some(clone_post(&self.posts[i]));
            }
            proof {
                assert(self@.posts[i as int] == self.posts@[i as int]@);
                assert(self@.posts[i as int].id != pk);
            }
            i += 1;
        }
        proof {
            lemma_post_index_by_id(self@.posts, pk);
        }
        None
    }


    /// Insert a post row: joins the tags with `|` and assigns the
    /// next id. Refuses only a spent id space.
    pub fn create_post(
        &mut self,
        title: &str,
        body: &str,
        author: i32,
        tags: &Vec<String>,
        permission: i32,
        now: i64,
    ) -> (r: Option<Post>)
        requires
            old(self).wf(),
        ensures
            final(self).wf(),
            create_allowed(old(self)@) ==> final(self)@ == create_post_v(
                old(self)@,
                title@,
                body@,
                author,
                join_spec(tags.deep_view()),
                permission,
                now,
            ) && (r matches Some(p) && p@ == new_post_v(
                old(self)@,
                title@,
                body@,
                author,
                join_spec(tags.deep_view()),
                permission,
                now,
            )),
            !create_allowed(old(self)@) ==> r is None && final(self)@ == old(self)@,
    {
        if self.next_post_id == i32::MAX {
            return None;
        }
        let post = Post {
            id: self.next_post_id,
            title: title.to_owned(),
            body: body.to_owned(),
            author: author,
            tags: join_tags(tags),
            permission: permission,
            created_at: now,
            modified_at: now,
        };
        let copy = clone_post(&post);
        let ghost prev = self@;
        self.posts.push(post);
        self.next_post_id = self.next_post_id + 1;
        proof {
            assert(self@.posts =~= prev.posts.push(copy@));
        }
        Some(copy)
    }

    /// Remove the post row with this id; the count of rows removed
    /// comes back, as the relational delete has it.
    pub fn delete_post(&mut self, pk: i32) -> (r: usize)
        requires
            old(self).wf(),
        ensures
            final(self).wf(),
            final(self)@ == delete_post_v(old(self)@, pk),
            r == (if post_index_by_id(old(self)@.posts, pk) >= 0 {
                1int
            } else {
                0int
            }),
    {
        let mut i: usize = 0;
        while i < self.posts.len()
            invariant
                self.wf(),
                self@ == old(self)@,
                i <= self.posts.len(),
                forall|k: int| 0 <= k < i ==> (#[trigger] self@.posts[k]).id != pk,
            decreases self.posts.len() - i,
        {
            if self.posts[i].id == pk {
                proof {
                    assert(self@.posts[i as int] == self.posts@[i as int]@);
                    lemma_post_index_by_id(self@.posts, pk);
                    assert(post_index_by_id(self@.posts, pk) == i);
                }
                let ghost prev = self@;
                self.posts.remove(i);
                proof {
                    assert(self@.posts =~= prev.posts.remove(i as int));
                }
                return 1;
            }
            proof {
                assert(self@.posts[i as int] == self.posts@[i as int]@);
                assert(self@.posts[i as int].id != pk);
            }
            i += 1;
        }
        proof {
            lemma_post_index_by_id(self@.posts, pk);
        }
        0
    }

    /// Overwrite title, body and tag string of the post row with
    /// this id, advancing its modification time to `now`.
    pub fn edit_post(&mut self, pk: i32, title: &str, body: &str, tags: &str, now: i64) -> (r:
        Option<Post>)
        requires
            old(self).wf(),
        ensures
            final(self).wf(),
            final(self)@ == edit_post_v(old(self)@, pk, title@, body@, tags@, now),
            post_index_by_id(old(self)@.posts, pk) >= 0 ==> (r matches Some(p) && p@
                == edited_post_v(
                old(self)@.posts[post_index_by_id(old(self)@.posts, pk)],
                title@,
                body@,
                tags@,
                now,
            )),
            post_index_by_id(old(self)@.posts, pk) < 0 ==> r is None,
    {
        let mut i: usize = 0;
        while i < self.posts.len()
            invariant
                self.wf(),
                self@ == old(self)@,
                i <= self.posts.len(),
                forall|k: int| 0 <= k < i ==> (#[trigger] self@.posts[k]).id != pk,
            decreases self.posts.len() - i,
        {
            if self.posts[i].id == pk {
                proof {
                    assert(self@.posts[i as int] == self.posts@[i as int]@);
                    lemma_post_index_by_id(self@.posts, pk);
                    assert(post_index_by_id(self@.posts, pk) == i);
                }
                let row = Post {
                    id: self.posts[i].id,
                    title: title.to_owned(),
                    body: body.to_owned(),
                    author: self.posts[i].author,
                    tags: tags.to_owned(),
                    permission: self.posts[i].permission,
                    created_at: self.posts[i].created_at,
                    modified_at: now,
                };
                let copy = clone_post(&row);
                let ghost prev = self@;
                let slot = &mut self.posts[i];
                *slot = row;
                proof {
                    assert(self@.posts =~= prev.posts.update(
                        i as int,
                        edited_post_v(prev.posts[i as int], title@, body@, tags@, now),
                    ));
                }
                return Some(copy);
            }
            proof {
                assert(self@.posts[i as int] == self.posts@[i as int]@);
                assert(self@.posts[i as int].id != pk);
            }
            i += 1;
        }
        proof {
            lemma_post_index_by_id(self@.posts, pk);
        }
        None
    }

    /// How many post rows there are.
    pub fn count_posts(&self) -> (r: i64)
        requires
            self.wf(),
        ensures
            r == self@.posts.len(),
    {
        self.posts.len() as i64
    }
}

} // verus!
