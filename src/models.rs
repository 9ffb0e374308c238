//! Rows kept by the data store.

use vstd::prelude::*;

verus! {

/// A login session, named by its token.
#[derive(Debug)]
pub struct Session {
    pub id: String,
}

/// The fields of a user account at registration.
#[derive(Debug)]
pub struct NewUser {
    pub username: String,
    pub password: String,
}

/// The fields of a post at creation.
#[derive(Debug)]
pub struct NewPost {
    pub content: String,
    pub user_id: i32,
}

/// A stored post. `created_at` is in seconds since the Unix epoch.
#[derive(Debug)]
pub struct Post {
    pub id: i32,
    pub content: String,
    pub valid: bool,
    pub created_at: i64,
    pub user_id: i32,
}

/// A stored vote: at most one per post and voter.
#[derive(Clone, Copy, Debug, PartialEq, Eq, Structural)]
pub struct Vote {
    pub post_id: i32,
    pub user_id: i32,
    pub up: bool,
}

pub struct PostRow {
    pub id: i32,
    pub content: Seq<char>,
    pub valid: bool,
    pub created_at: i64,
    pub user_id: i32,
}

impl View for Post {
    type V = PostRow;

    open spec fn view(&self) -> PostRow {
        PostRow {
            id: self.id,
            content: self.content@,
            valid: self.valid,
            created_at: self.created_at,
            user_id: self.user_id,
        }
    }
}

} // verus!
