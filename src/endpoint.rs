//! One client connection: what it has become, what an inbound frame asks
//! for, and the replies and updates built from the outcome of a request.

use vstd::prelude::*;
use crate::codec::{DecodeError, classify, decode, encode_new_post};
use crate::format::{classification, decoding, encoding, request_tag, subject};
use crate::models;
use crate::protocol::{
    Kind, Message, MessageV, Post, PostV, Request, Response, ResponseV, User, Vote, WsMessage,
    posts_view,
};
use crate::text::owned;

verus! {

/// Why a request failed on the server.
#[derive(Clone, Copy, Debug, PartialEq, Eq, Structural)]
pub enum ServerError {
    CreateToken,
    VerifyToken,
    InsertToken,
    InsertPost,
    UpdateToken,
    RemoveToken,
    JoinChat,
    CreateUser,
    FindUser,
    InsertVote,
    IncorrectPassword,
    InvalidVote,
}

pub open spec fn server_error_text(e: ServerError) -> Seq<char> {
    match e {
        ServerError::CreateToken => "unable to create token"@,
        ServerError::VerifyToken => "Invalid Token"@,
        ServerError::InsertToken => "unable to insert token in the database"@,
        ServerError::InsertPost => "unable to insert post in the database"@,
        ServerError::UpdateToken => "unable to update token in the database"@,
        ServerError::RemoveToken => "unable to remove token from the database"@,
        ServerError::JoinChat => "unable to add user to chat"@,
        ServerError::CreateUser => "unable to add a new user to the database"@,
        ServerError::FindUser => "unable to find user in the database"@,
        ServerError::InsertVote => "unable to insert vote in the database"@,
        ServerError::IncorrectPassword => "Password is incorrect"@,
        ServerError::InvalidVote => "Invalid Vote"@,
    }
}

impl ServerError {
    /// The human-readable text sent back to the client.
    pub fn description(&self) -> (r: String)
        ensures
            r@ == server_error_text(*self),
    {
        match self {
            ServerError::CreateToken => owned("unable to create token"),
            ServerError::VerifyToken => owned("Invalid Token"),
            ServerError::InsertToken => owned("unable to insert token in the database"),
            ServerError::InsertPost => owned("unable to insert post in the database"),
            ServerError::UpdateToken => owned("unable to update token in the database"),
            ServerError::RemoveToken => owned("unable to remove token from the database"),
            ServerError::JoinChat => owned("unable to add user to chat"),
            ServerError::CreateUser => owned("unable to add a new user to the database"),
            ServerError::FindUser => owned("unable to find user in the database"),
            ServerError::InsertVote => owned("unable to insert vote in the database"),
            ServerError::IncorrectPassword => owned("Password is incorrect"),
            ServerError::InvalidVote => owned("Invalid Vote"),
        }
    }
}

pub open spec fn decode_error_text(e: DecodeError) -> Seq<char> {
    match e {
        DecodeError::Truncated => "message is truncated"@,
        DecodeError::Malformed => "message holds a malformed field"@,
        DecodeError::UnknownKind { .. } => "unrecognized message kind"@,
        DecodeError::UnknownVariant { .. } => "unrecognized message variant"@,
        DecodeError::TrailingBytes => "message is followed by stray bytes"@,
    }
}

/// The human-readable text of a decoding failure.
pub fn decode_error_description(e: DecodeError) -> (r: String)
    ensures
        r@ == decode_error_text(e),
{
    match e {
        DecodeError::Truncated => owned("message is truncated"),
        DecodeError::Malformed => owned("message holds a malformed field"),
        DecodeError::UnknownKind { .. } => owned("unrecognized message kind"),
        DecodeError::UnknownVariant { .. } => owned("unrecognized message variant"),
        DecodeError::TrailingBytes => owned("message is followed by stray bytes"),
    }
}

/// Where a connection stands.
#[derive(Clone, Copy, Debug, PartialEq, Eq, Structural)]
pub enum Phase {
    Unauthenticated,
    Authenticated,
    Closed,
}

/// The state of one client connection.
#[derive(Debug)]
pub struct Ws {
    id: Option<String>,
    phase: Phase,
    joining: bool,
}

impl Ws {
    pub closed spec fn spec_phase(&self) -> Phase {
        self.phase
    }

    /// The hub session of the connection, once the hub has given one.
    pub closed spec fn spec_session(&self) -> Option<Seq<char>> {
        match self.id {
            Some(s) => Some(s@),
            None => None,
        }
    }

    /// The hub has been asked for a session on behalf of this connection.
    pub closed spec fn spec_joining(&self) -> bool {
        self.joining
    }

    /// A session id is only ever held after it was asked for.
    pub closed spec fn wf(&self) -> bool {
        self.id is Some ==> self.joining
    }

    /// A fresh connection: not signed in, with no session.
    pub fn new() -> (r: Ws)
        ensures
            r.wf(),
            r.spec_phase() == Phase::Unauthenticated,
            r.spec_session() is None,
            !r.spec_joining(),
    {
        Ws { id: None, phase: Phase::Unauthenticated, joining: false }
    }

    pub fn phase(&self) -> (r: Phase)
        ensures
            r == self.spec_phase(),
    {
        self.phase
    }

    /// The hub session of the connection, which a post broadcast excludes.
    pub fn session_id(&self) -> (r: Option<String>)
        ensures
            match r {
                Some(s) => self.spec_session() == Some(s@),
                None => self.spec_session() is None,
            },
    {
        match &self.id {
            Some(s) => Some(s.clone()),
            None => None,
        }
    }

    /// A login or a registration succeeded. Returns whether the hub must now
    /// be asked for a session: only the first time in the connection's life.
    pub fn signed_in(&mut self) -> (join: bool)
        requires
            old(self).wf(),
            old(self).spec_phase() != Phase::Closed,
        ensures
            final(self).wf(),
            final(self).spec_phase() == Phase::Authenticated,
            join == !old(self).spec_joining(),
            final(self).spec_joining(),
            final(self).spec_session() == old(self).spec_session(),
    {
        self.phase = Phase::Authenticated;
        let join = !self.joining;
        self.joining = true;
        join
    }

    /// The hub gave the session `id`.
    pub fn joined(&mut self, id: String)
        requires
            old(self).wf(),
            old(self).spec_joining(),
            old(self).spec_session() is None,
        ensures
            final(self).wf(),
            final(self).spec_session() == Some(id@),
            final(self).spec_phase() == old(self).spec_phase(),
            final(self).spec_joining(),
    {
        self.id = Some(id);
    }

    /// The announcement of a post this connection created, with the session
    /// that the broadcast skips: the creator's own, when it has one.
    pub fn announce_post(&self, post: &models::Post) -> (r: (Vec<u8>, Option<String>))
        ensures
            r.0@ == encoding(MessageV::Update(crate::protocol::UpdateV::NewPost {
                post: post_view_for(post@, None),
            })),
            match r.1 {
                Some(s) => self.spec_session() == Some(s@),
                None => self.spec_session() is None,
            },
    {
        (new_post_update(post), self.session_id())
    }

    /// The transport closed. Returns the session that the hub must drop.
    pub fn close(&mut self) -> (r: Option<String>)
        requires
            old(self).wf(),
        ensures
            final(self).wf(),
            final(self).spec_phase() == Phase::Closed,
            final(self).spec_session() is None,
            final(self).spec_joining() == old(self).spec_joining(),
            match r {
                Some(s) => old(self).spec_session() == Some(s@),
                None => old(self).spec_session() is None,
            },
    {
        self.phase = Phase::Closed;
        self.id.take()
    }
}

/// What an inbound frame asks for.
#[derive(Debug)]
pub enum Inbound {
    /// A well-formed request.
    Request(Request),
    /// A request of this subject that could not be read: it is answered with
    /// an error reply of its subject.
    Reject(WsMessage, DecodeError),
    /// Not a request at all: dropped.
    Ignore,
}

/// Reads an inbound frame.
pub fn read_request(bytes: &[u8]) -> (r: Inbound)
    ensures
        match r {
            Inbound::Request(q) => decoding(bytes@) == Ok::<MessageV, DecodeError>(
                MessageV::Request(q@),
            ),
            Inbound::Reject(s, e) => decoding(bytes@) == Err::<MessageV, DecodeError>(e)
                && classification(bytes@) == Ok::<(Kind, WsMessage), DecodeError>(
                (Kind::Request, s),
            ),
            Inbound::Ignore => !(decoding(bytes@) matches Ok(MessageV::Request(_))) && !(
            classification(bytes@) matches Ok((Kind::Request, _))),
        },
{
    match decode(bytes) {
        Ok(Message::Request(q)) => Inbound::Request(q),
        Ok(_) => {
            proof {
                let b = bytes@;
                assert(b[0] != 0u8);
            }
            Inbound::Ignore
        },
        Err(e) => match classify(bytes) {
            Ok((Kind::Request, s)) => Inbound::Reject(s, e),
            _ => Inbound::Ignore,
        },
    }
}

/// What a request is about.
pub fn request_subject(request: &Request) -> (r: WsMessage)
    ensures
        r == subject(0, request_tag(request@)),
        is_request_subject(r),
{
    match request {
        Request::LoginCredentials { .. } | Request::LoginToken { .. } => WsMessage::Login,
        Request::Registration { .. } => WsMessage::Registration,
        Request::Logout { .. } => WsMessage::Logout,
        Request::FetchPosts { .. } => WsMessage::FetchPosts,
        Request::CreatePost { .. } => WsMessage::CreatePost,
        Request::UserVote { .. } => WsMessage::UserVote,
    }
}

pub open spec fn is_request_subject(s: WsMessage) -> bool {
    match s {
        WsMessage::NewPost | WsMessage::InvalidPosts | WsMessage::UpdateUsers => false,
        _ => true,
    }
}

/// The error reply to a request of subject `s`; a failed registration is
/// answered like a failed login.
pub open spec fn error_reply_of(s: WsMessage, description: Seq<char>) -> ResponseV {
    match s {
        WsMessage::Logout => ResponseV::LogoutError { description },
        WsMessage::FetchPosts => ResponseV::FetchPostsError { description },
        WsMessage::CreatePost => ResponseV::CreatePostError { description },
        WsMessage::UserVote => ResponseV::UserVoteError { description },
        _ => ResponseV::LoginError { description },
    }
}

/// The error reply to a request of subject `subject`.
pub fn error_reply(subject: WsMessage, description: String) -> (r: Response)
    requires
        is_request_subject(subject),
    ensures
        r@ == error_reply_of(subject, description@),
{
    match subject {
        WsMessage::Logout => Response::LogoutError { description },
        WsMessage::FetchPosts => Response::FetchPostsError { description },
        WsMessage::CreatePost => Response::CreatePostError { description },
        WsMessage::UserVote => Response::UserVoteError { description },
        _ => Response::LoginError { description },
    }
}

/// The stored direction of a vote: up is `true`, down `false`. A neutral
/// vote is refused.
pub fn vote_direction(vote: Vote) -> (r: Result<bool, ServerError>)
    ensures
        match vote {
            Vote::Up => r == Ok::<bool, ServerError>(true),
            Vote::Down => r == Ok::<bool, ServerError>(false),
            Vote::Neutral => r == Err::<bool, ServerError>(ServerError::InvalidVote),
        },
{
    match vote {
        Vote::Up => Ok(true),
        Vote::Down => Ok(false),
        Vote::Neutral => Err(ServerError::InvalidVote),
    }
}

pub open spec fn viewer_vote(v: Option<models::Vote>) -> Vote {
    match v {
        Some(x) => if x.up {
            Vote::Up
        } else {
            Vote::Down
        },
        None => Vote::Neutral,
    }
}

pub open spec fn post_view_for(p: models::PostRow, v: Option<models::Vote>) -> PostV {
    PostV {
        id: p.id,
        content: p.content,
        valid: p.valid,
        vote: viewer_vote(v),
        author_id: p.user_id,
    }
}

/// A stored post as a viewer sees it, with the viewer's vote on it.
pub fn post_for_viewer(post: &models::Post, vote: Option<models::Vote>) -> (r: Post)
    ensures
        r@ == post_view_for(post@, vote),
{
    let v = match vote {
        Some(x) => if x.up {
            Vote::Up
        } else {
            Vote::Down
        },
        None => Vote::Neutral,
    };
    Post {
        id: post.id,
        content: post.content.clone(),
        valid: post.valid,
        vote: v,
        author_id: post.user_id,
    }
}

/// The successful reply to a fetch: the renewed token and the open posts,
/// each with the viewer's own vote.
pub fn fetched_posts(token: String, rows: &Vec<(models::Post, Option<models::Vote>)>) -> (r:
    Response)
    ensures
        r@ == (ResponseV::FetchPostsSuccess {
            token: token@,
            posts: rows@.map_values(|row: (models::Post, Option<models::Vote>)| post_view_for(row.0@, row.1)),
        }),
{
    let mut posts: Vec<Post> = Vec::new();
    let mut i: usize = 0;
    while i < rows.len()
        invariant
            i <= rows@.len(),
            posts_view(posts@) == rows@.take(i as int).map_values(
                |row: (models::Post, Option<models::Vote>)| post_view_for(row.0@, row.1),
            ),
        decreases rows@.len() - i,
    {
        let row = &rows[i];
        let p = post_for_viewer(&row.0, row.1);
        let ghost before = posts@;
        posts.push(p);
        proof {
            assert(posts_view(posts@) =~= posts_view(before).push(p@));
            assert(rows@.take(i + 1) =~= rows@.take(i as int).push(rows@[i as int]));
            assert(rows@.take(i + 1).map_values(
                |row: (models::Post, Option<models::Vote>)| post_view_for(row.0@, row.1),
            ) =~= rows@.take(i as int).map_values(
                |row: (models::Post, Option<models::Vote>)| post_view_for(row.0@, row.1),
            ).push(p@));
        }
        i += 1;
    }
    assert(rows@.take(i as int) =~= rows@);
    Response::FetchPostsSuccess { token, posts }
}

/// The successful reply to a login or a registration.
pub fn login_reply(token: String, user: User) -> (r: Response)
    ensures
        r@ == (ResponseV::LoginSuccess { token: token@, user: user@ }),
{
    Response::LoginSuccess { token, user }
}

/// The successful reply to a new post: the renewed token and the post as
/// its author sees it, with no vote yet.
pub fn created_post_reply(token: String, post: &models::Post) -> (r: Response)
    ensures
        r@ == (ResponseV::CreatePostSuccess { token: token@, post: post_view_for(post@, None) }),
{
    Response::CreatePostSuccess { token, post: post_for_viewer(post, None) }
}

/// The bytes of the update that announces a newly created post to the other
/// connections; nobody has voted on it yet.
pub fn new_post_update(post: &models::Post) -> (r: Vec<u8>)
    ensures
        r@ == encoding(MessageV::Update(crate::protocol::UpdateV::NewPost {
            post: post_view_for(post@, None),
        })),
{
    let p = post_for_viewer(post, None);
    encode_new_post(&p)
}

} // verus!
