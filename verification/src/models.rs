use vstd::prelude::*;

verus! {

/// Coarse two-tier role attached to a user. Its numeric code is also
/// reused as a per-post visibility tag, compared by exact match.
#[derive(Clone, Copy, Debug, PartialEq, Eq, Structural)]
pub enum AccountLevel {
    Default,
    Admin,
}

/// Numeric code a stored row carries for a level.
pub open spec fn level_code(l: AccountLevel) -> i32 {
    match l {
        AccountLevel::Default => 0,
        AccountLevel::Admin => 1,
    }
}

/// The level a stored numeric code denotes: 1 is `Admin`, everything
/// else reads as `Default`.
pub open spec fn spec_level_of_code(c: i32) -> AccountLevel {
    if c == 1 {
        AccountLevel::Admin
    } else {
        AccountLevel::Default
    }
}

pub fn level_to_code(l: AccountLevel) -> (r: i32)
    ensures
        r == level_code(l),
{
    match l {
        AccountLevel::Default => 0,
        AccountLevel::Admin => 1,
    }
}

pub fn level_of_code(c: i32) -> (r: AccountLevel)
    ensures
        r == spec_level_of_code(c),
{
    if c == 1 {
        AccountLevel::Admin
    } else {
        AccountLevel::Default
    }
}

/// Mathematical image of a user row.
pub struct UserV {
    pub id: i32,
    pub username: Seq<char>,
    pub pass: Seq<char>,
    pub email: Seq<char>,
    pub nickname: Seq<char>,
    pub permission: i32,
}

/// A user row: `pass` holds the password hash, never the raw
/// password; `permission` holds a level code.
#[derive(Clone, Debug)]
pub struct User {
    pub id: i32,
    pub username: String,
    pub pass: String,
    pub email: String,
    pub nickname: String,
    pub permission: i32,
}

impl View for User {
    type V = UserV;

    open spec fn view(&self) -> UserV {
        UserV {
            id: self.id,
            username: self.username@,
            pass: self.pass@,
            email: self.email@,
            nickname: self.nickname@,
            permission: self.permission,
        }
    }
}

/// Mathematical image of a post row.
pub struct PostV {
    pub id: i32,
    pub title: Seq<char>,
    pub body: Seq<char>,
    pub author: i32,
    pub tags: Seq<char>,
    pub permission: i32,
    pub created_at: i64,
    pub modified_at: i64,
}

/// A post row. `tags` holds the tag list joined with `|`;
/// `permission` is 0 for a public post and otherwise restricts the
/// post to users whose level code equals it. Timestamps are seconds
/// since the epoch, supplied by the caller at insert and update.
#[derive(Clone, Debug)]
pub struct Post {
    pub id: i32,
    pub title: String,
    pub body: String,
    pub author: i32,
    pub tags: String,
    pub permission: i32,
    pub created_at: i64,
    pub modified_at: i64,
}

impl View for Post {
    type V = PostV;

    open spec fn view(&self) -> PostV {
        PostV {
            id: self.id,
            title: self.title@,
            body: self.body@,
            author: self.author,
            tags: self.tags@,
            permission: self.permission,
            created_at: self.created_at,
            modified_at: self.modified_at,
        }
    }
}

/// Mathematical image of a post header.
pub struct PostHeaderV {
    pub id: i32,
    pub title: Seq<char>,
    pub author: i32,
    pub created_at: i64,
    pub modified_at: i64,
}

/// What a post listing returns for each post: everything but the
/// body, the tags and the visibility tag.
#[derive(Clone, Debug)]
pub struct PostHeader {
    pub id: i32,
    pub title: String,
    pub author: i32,
    pub created_at: i64,
    pub modified_at: i64,
}

impl View for PostHeader {
    type V = PostHeaderV;

    open spec fn view(&self) -> PostHeaderV {
        PostHeaderV {
            id: self.id,
            title: self.title@,
            author: self.author,
            created_at: self.created_at,
            modified_at: self.modified_at,
        }
    }
}

} // verus!
