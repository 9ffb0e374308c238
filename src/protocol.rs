//! The messages exchanged between clients and the server, and their
//! mathematical models.

use vstd::prelude::*;

verus! {

/// A user's stance on a post, as carried on the wire.
#[derive(Clone, Copy, Debug, PartialEq, Eq, Structural)]
pub enum Vote {
    Up,
    Neutral,
    Down,
}

/// A user record as clients see it.
#[derive(Debug)]
pub struct User {
    pub id: i32,
    pub username: String,
    pub karma: i32,
    pub streak: i16,
}

/// A post as clients see it, with the viewer's own vote on it.
#[derive(Debug)]
pub struct Post {
    pub id: i32,
    pub content: String,
    pub valid: bool,
    pub vote: Vote,
    pub author_id: i32,
}

/// Requests sent by a client.
#[derive(Debug)]
pub enum Request {
    LoginCredentials { username: String, password: String },
    LoginToken { token: String },
    Registration { username: String, password: String },
    Logout { token: String },
    FetchPosts { token: String },
    CreatePost { token: String, content: String },
    UserVote { token: String, post_id: i32, vote: Vote },
}

/// Replies of the server, one success and one error form per request.
/// A registration is answered with a login reply.
#[derive(Debug)]
pub enum Response {
    LoginSuccess { token: String, user: User },
    LoginError { description: String },
    LogoutSuccess,
    LogoutError { description: String },
    FetchPostsSuccess { token: String, posts: Vec<Post> },
    FetchPostsError { description: String },
    CreatePostSuccess { token: String, post: Post },
    CreatePostError { description: String },
    UserVoteSuccess { token: String },
    UserVoteError { description: String },
}

/// Messages the server pushes to every client without being asked.
#[derive(Debug)]
pub enum Update {
    NewPost { post: Post },
    Invalid { post_ids: Vec<i32> },
    Users { users: Vec<User> },
}

/// Any message on the wire.
#[derive(Debug)]
pub enum Message {
    Request(Request),
    Response(Response),
    Update(Update),
}

/// The three families of messages.
#[derive(Clone, Copy, Debug, PartialEq, Eq, Structural)]
pub enum Kind {
    Request,
    Response,
    Update,
}

/// What a message is about, independent of its family and of success or
/// failure.
#[derive(Clone, Copy, Debug, PartialEq, Eq, Structural)]
pub enum WsMessage {
    Login,
    Registration,
    Logout,
    FetchPosts,
    CreatePost,
    UserVote,
    NewPost,
    InvalidPosts,
    UpdateUsers,
}

/// Why a reply could not be read: the server answered with an error, or
/// the bytes are no message.
#[derive(Debug)]
pub enum ProtocolError {
    Response { description: String },
    Decode { error: crate::format::DecodeError },
}

pub struct UserV {
    pub id: i32,
    pub username: Seq<char>,
    pub karma: i32,
    pub streak: i16,
}

pub struct PostV {
    pub id: i32,
    pub content: Seq<char>,
    pub valid: bool,
    pub vote: Vote,
    pub author_id: i32,
}

pub enum RequestV {
    LoginCredentials { username: Seq<char>, password: Seq<char> },
    LoginToken { token: Seq<char> },
    Registration { username: Seq<char>, password: Seq<char> },
    Logout { token: Seq<char> },
    FetchPosts { token: Seq<char> },
    CreatePost { token: Seq<char>, content: Seq<char> },
    UserVote { token: Seq<char>, post_id: i32, vote: Vote },
}

pub enum ResponseV {
    LoginSuccess { token: Seq<char>, user: UserV },
    LoginError { description: Seq<char> },
    LogoutSuccess,
    LogoutError { description: Seq<char> },
    FetchPostsSuccess { token: Seq<char>, posts: Seq<PostV> },
    FetchPostsError { description: Seq<char> },
    CreatePostSuccess { token: Seq<char>, post: PostV },
    CreatePostError { description: Seq<char> },
    UserVoteSuccess { token: Seq<char> },
    UserVoteError { description: Seq<char> },
}

pub enum UpdateV {
    NewPost { post: PostV },
    Invalid { post_ids: Seq<i32> },
    Users { users: Seq<UserV> },
}

pub enum MessageV {
    Request(RequestV),
    Response(ResponseV),
    Update(UpdateV),
}

impl View for User {
    type V = UserV;

    open spec fn view(&self) -> UserV {
        UserV { id: self.id, username: self.username@, karma: self.karma, streak: self.streak }
    }
}

impl View for Post {
    type V = PostV;

    open spec fn view(&self) -> PostV {
        PostV {
            id: self.id,
            content: self.content@,
            valid: self.valid,
            vote: self.vote,
            author_id: self.author_id,
        }
    }
}

pub open spec fn users_view(v: Seq<User>) -> Seq<UserV> {
    v.map_values(|u: User| u@)
}

pub open spec fn posts_view(v: Seq<Post>) -> Seq<PostV> {
    v.map_values(|p: Post| p@)
}

impl View for Request {
    type V = RequestV;

    open spec fn view(&self) -> RequestV {
        match self {
            Request::LoginCredentials { username, password } => RequestV::LoginCredentials {
                username: username@,
                password: password@,
            },
            Request::LoginToken { token } => RequestV::LoginToken { token: token@ },
            Request::Registration { username, password } => RequestV::Registration {
                username: username@,
                password: password@,
            },
            Request::Logout { token } => RequestV::Logout { token: token@ },
            Request::FetchPosts { token } => RequestV::FetchPosts { token: token@ },
            Request::CreatePost { token, content } => RequestV::CreatePost {
                token: token@,
                content: content@,
            },
            Request::UserVote { token, post_id, vote } => RequestV::UserVote {
                token: token@,
                post_id: *post_id,
                vote: *vote,
            },
        }
    }
}

impl View for Response {
    type V = ResponseV;

    open spec fn view(&self) -> ResponseV {
        match self {
            Response::LoginSuccess { token, user } => ResponseV::LoginSuccess {
                token: token@,
                user: user@,
            },
            Response::LoginError { description } => ResponseV::LoginError {
                description: description@,
            },
            Response::LogoutSuccess => ResponseV::LogoutSuccess,
            Response::LogoutError { description } => ResponseV::LogoutError {
                description: description@,
            },
            Response::FetchPostsSuccess { token, posts } => ResponseV::FetchPostsSuccess {
                token: token@,
                posts: posts_view(posts@),
            },
            Response::FetchPostsError { description } => ResponseV::FetchPostsError {
                description: description@,
            },
            Response::CreatePostSuccess { token, post } => ResponseV::CreatePostSuccess {
                token: token@,
                post: post@,
            },
            Response::CreatePostError { description } => ResponseV::CreatePostError {
                description: description@,
            },
            Response::UserVoteSuccess { token } => ResponseV::UserVoteSuccess { token: token@ },
            Response::UserVoteError { description } => ResponseV::UserVoteError {
                description: description@,
            },
        }
    }
}

impl View for Update {
    type V = UpdateV;

    open spec fn view(&self) -> UpdateV {
        match self {
            Update::NewPost { post } => UpdateV::NewPost { post: post@ },
            Update::Invalid { post_ids } => UpdateV::Invalid { post_ids: post_ids@ },
            Update::Users { users } => UpdateV::Users { users: users_view(users@) },
        }
    }
}

impl View for Message {
    type V = MessageV;

    open spec fn view(&self) -> MessageV {
        match self {
            Message::Request(r) => MessageV::Request(r@),
            Message::Response(r) => MessageV::Response(r@),
            Message::Update(u) => MessageV::Update(u@),
        }
    }
}

impl User {
    /// A copy of this record.
    pub fn duplicate(&self) -> (r: User)
        ensures
            r@ == self@,
    {
        User {
            id: self.id,
            username: self.username.clone(),
            karma: self.karma,
            streak: self.streak,
        }
    }
}

impl Post {
    /// A copy of this record.
    pub fn duplicate(&self) -> (r: Post)
        ensures
            r@ == self@,
    {
        Post {
            id: self.id,
            content: self.content.clone(),
            valid: self.valid,
            vote: self.vote,
            author_id: self.author_id,
        }
    }
}

} // verus!
