//! The client's side of the protocol: the requests it sends and the
//! replies and updates it reads back.

use vstd::prelude::*;
use crate::codec::{DecodeError, decode, encode};
use crate::format::{class_of, decoding, encoding};
use crate::protocol::{
    Message, MessageV, Post, ProtocolError, Request, RequestV, Response, ResponseV, Update,
    UpdateV, User, Vote, WsMessage, posts_view, users_view,
};

verus! {

/// A successful login or registration: the session token and the user.
#[derive(Debug)]
pub struct LoginResponse {
    pub token: String,
    pub user: User,
}

/// The renewed token and the open posts.
#[derive(Debug)]
pub struct FetchedPosts {
    pub token: String,
    pub posts: Vec<Post>,
}

/// The renewed token and the post just created.
#[derive(Debug)]
pub struct CreatedPost {
    pub token: String,
    pub post: Post,
}

/// Users whose standing changed.
#[derive(Debug)]
pub struct UsersToUpdate {
    pub users: Vec<User>,
}

/// What a message is about.
pub fn subject_of(m: &Message) -> (s: WsMessage)
    ensures
        s == class_of(m@).1,
{
    match m {
        Message::Request(r) => match r {
            Request::LoginCredentials { .. } | Request::LoginToken { .. } => WsMessage::Login,
            Request::Registration { .. } => WsMessage::Registration,
            Request::Logout { .. } => WsMessage::Logout,
            Request::FetchPosts { .. } => WsMessage::FetchPosts,
            Request::CreatePost { .. } => WsMessage::CreatePost,
            Request::UserVote { .. } => WsMessage::UserVote,
        },
        Message::Response(r) => match r {
            Response::LoginSuccess { .. } | Response::LoginError { .. } => WsMessage::Login,
            Response::LogoutSuccess | Response::LogoutError { .. } => WsMessage::Logout,
            Response::FetchPostsSuccess { .. } | Response::FetchPostsError { .. } => {
                WsMessage::FetchPosts
            },
            Response::CreatePostSuccess { .. } | Response::CreatePostError { .. } => {
                WsMessage::CreatePost
            },
            Response::UserVoteSuccess { .. } | Response::UserVoteError { .. } => {
                WsMessage::UserVote
            },
        },
        Message::Update(u) => match u {
            Update::NewPost { .. } => WsMessage::NewPost,
            Update::Invalid { .. } => WsMessage::InvalidPosts,
            Update::Users { .. } => WsMessage::UpdateUsers,
        },
    }
}

/// Builds the client's requests and reads the server's messages.
#[derive(Clone, Copy, Debug)]
pub struct ProtocolService;

impl ProtocolService {
    pub fn new() -> (r: ProtocolService) {
        ProtocolService
    }

    /// What a message is about. The whole message is read first, so bytes
    /// that are no message (truncated, malformed, of an unknown family or
    /// variant, or followed by stray bytes) give the decoding failure.
    pub fn which_message(data: &[u8]) -> (r: Result<WsMessage, DecodeError>)
        ensures
            match decoding(data@) {
                Ok(m) => r == Ok::<WsMessage, DecodeError>(class_of(m).1),
                Err(e) => r == Err::<WsMessage, DecodeError>(e),
            },
    {
        match decode(data) {
            Ok(m) => Ok(subject_of(&m)),
            Err(e) => Err(e),
        }
    }

    pub fn write_request_login_credentials(&self, name: &str, password: &str) -> (r: Vec<u8>)
        ensures
            r@ == encoding(
                MessageV::Request(RequestV::LoginCredentials { username: name@, password: password@ }),
            ),
    {
        encode(
            &Message::Request(
                Request::LoginCredentials { username: name.to_owned(), password: password.to_owned() },
            ),
        )
    }

    pub fn write_request_login_token(&self, token: &str) -> (r: Vec<u8>)
        ensures
            r@ == encoding(MessageV::Request(RequestV::LoginToken { token: token@ })),
    {
        encode(&Message::Request(Request::LoginToken { token: token.to_owned() }))
    }

    pub fn write_request_logout_token(&self, token: &str) -> (r: Vec<u8>)
        ensures
            r@ == encoding(MessageV::Request(RequestV::Logout { token: token@ })),
    {
        encode(&Message::Request(Request::Logout { token: token.to_owned() }))
    }

    pub fn write_request_registration(&self, name: &str, password: &str) -> (r: Vec<u8>)
        ensures
            r@ == encoding(
                MessageV::Request(RequestV::Registration { username: name@, password: password@ }),
            ),
    {
        encode(
            &Message::Request(
                Request::Registration { username: name.to_owned(), password: password.to_owned() },
            ),
        )
    }

    pub fn write_request_fetch_posts(&self, token: &str) -> (r: Vec<u8>)
        ensures
            r@ == encoding(MessageV::Request(RequestV::FetchPosts { token: token@ })),
    {
        encode(&Message::Request(Request::FetchPosts { token: token.to_owned() }))
    }

    pub fn write_request_create_post(&self, token: &str, content: &str) -> (r: Vec<u8>)
        ensures
            r@ == encoding(
                MessageV::Request(RequestV::CreatePost { token: token@, content: content@ }),
            ),
    {
        encode(
            &Message::Request(
                Request::CreatePost { token: token.to_owned(), content: content.to_owned() },
            ),
        )
    }

    pub fn write_request_user_vote(&self, token: &str, post_id: i32, vote: Vote) -> (r: Vec<u8>)
        ensures
            r@ == encoding(
                MessageV::Request(RequestV::UserVote { token: token@, post_id, vote }),
            ),
    {
        encode(&Message::Request(Request::UserVote { token: token.to_owned(), post_id, vote }))
    }

    /// Reads a login reply.
    pub fn read_response_login(&self, data: &[u8]) -> (r: Result<
        Option<LoginResponse>,
        ProtocolError,
    >)
        ensures
            match decoding(data@) {
                Err(e) => r matches Err(ProtocolError::Decode { error }) && error == e,
                Ok(MessageV::Response(ResponseV::LoginSuccess { token, user })) => r matches Ok(
                    Some(x),
                ) && x.token@ == token && x.user@ == user,
                Ok(MessageV::Response(ResponseV::LoginError { description })) => r matches Err(
                    ProtocolError::Response { description: d },
                ) && d@ == description,
                Ok(_) => r matches Ok(None),
            },
    {
        match decode(data) {
            Err(error) => Err(ProtocolError::Decode { error }),
            Ok(Message::Response(Response::LoginSuccess { token, user })) => Ok(
                Some(LoginResponse { token, user }),
            ),
            Ok(Message::Response(Response::LoginError { description })) => Err(
                ProtocolError::Response { description },
            ),
            Ok(_) => Ok(None),
        }
    }

    /// Reads a logout reply.
    pub fn read_response_logout(&self, data: &[u8]) -> (r: Result<Option<()>, ProtocolError>)
        ensures
            match decoding(data@) {
                Err(e) => r matches Err(ProtocolError::Decode { error }) && error == e,
                Ok(MessageV::Response(ResponseV::LogoutSuccess)) => r matches Ok(Some(())),
                Ok(MessageV::Response(ResponseV::LogoutError { description })) => r matches Err(
                    ProtocolError::Response { description: d },
                ) && d@ == description,
                Ok(_) => r matches Ok(None),
            },
    {
        match decode(data) {
            Err(error) => Err(ProtocolError::Decode { error }),
            Ok(Message::Response(Response::LogoutSuccess)) => Ok(Some(())),
            Ok(Message::Response(Response::LogoutError { description })) => Err(
                ProtocolError::Response { description },
            ),
            Ok(_) => Ok(None),
        }
    }

    /// Reads a fetch reply.
    pub fn read_response_fetch_posts(&self, data: &[u8]) -> (r: Result<
        Option<FetchedPosts>,
        ProtocolError,
    >)
        ensures
            match decoding(data@) {
                Err(e) => r matches Err(ProtocolError::Decode { error }) && error == e,
                Ok(MessageV::Response(ResponseV::FetchPostsSuccess { token, posts })) => r matches Ok(
                    Some(x),
                ) && x.token@ == token && posts_view(x.posts@) == posts,
                Ok(MessageV::Response(ResponseV::FetchPostsError { description })) => r matches Err(
                    ProtocolError::Response { description: d },
                ) && d@ == description,
                Ok(_) => r matches Ok(None),
            },
    {
        match decode(data) {
            Err(error) => Err(ProtocolError::Decode { error }),
            Ok(Message::Response(Response::FetchPostsSuccess { token, posts })) => Ok(
                Some(FetchedPosts { token, posts }),
            ),
            Ok(Message::Response(Response::FetchPostsError { description })) => Err(
                ProtocolError::Response { description },
            ),
            Ok(_) => Ok(None),
        }
    }

    /// Reads the reply to a new post.
    pub fn read_response_create_post(&self, data: &[u8]) -> (r: Result<
        Option<CreatedPost>,
        ProtocolError,
    >)
        ensures
            match decoding(data@) {
                Err(e) => r matches Err(ProtocolError::Decode { error }) && error == e,
                Ok(MessageV::Response(ResponseV::CreatePostSuccess { token, post })) => r matches Ok(
                    Some(x),
                ) && x.token@ == token && x.post@ == post,
                Ok(MessageV::Response(ResponseV::CreatePostError { description })) => r matches Err(
                    ProtocolError::Response { description: d },
                ) && d@ == description,
                Ok(_) => r matches Ok(None),
            },
    {
        match decode(data) {
            Err(error) => Err(ProtocolError::Decode { error }),
            Ok(Message::Response(Response::CreatePostSuccess { token, post })) => Ok(
                Some(CreatedPost { token, post }),
            ),
            Ok(Message::Response(Response::CreatePostError { description })) => Err(
                ProtocolError::Response { description },
            ),
            Ok(_) => Ok(None),
        }
    }

    /// Reads the reply to a vote: the renewed token.
    pub fn read_request_user_vote(&self, data: &[u8]) -> (r: Result<Option<String>, ProtocolError>)
        ensures
            match decoding(data@) {
                Err(e) => r matches Err(ProtocolError::Decode { error }) && error == e,
                Ok(MessageV::Response(ResponseV::UserVoteSuccess { token })) => r matches Ok(
                    Some(x),
                ) && x@ == token,
                Ok(MessageV::Response(ResponseV::UserVoteError { description })) => r matches Err(
                    ProtocolError::Response { description: d },
                ) && d@ == description,
                Ok(_) => r matches Ok(None),
            },
    {
        match decode(data) {
            Err(error) => Err(ProtocolError::Decode { error }),
            Ok(Message::Response(Response::UserVoteSuccess { token })) => Ok(Some(token)),
            Ok(Message::Response(Response::UserVoteError { description })) => Err(
                ProtocolError::Response { description },
            ),
            Ok(_) => Ok(None),
        }
    }

    /// Reads the announcement of a new post.
    pub fn read_update_new_post(&self, data: &[u8]) -> (r: Result<Option<Post>, ProtocolError>)
        ensures
            match decoding(data@) {
                Err(e) => r matches Err(ProtocolError::Decode { error }) && error == e,
                Ok(MessageV::Update(UpdateV::NewPost { post })) => r matches Ok(Some(x)) && x@
                    == post,
                Ok(_) => r matches Ok(None),
            },
    {
        match decode(data) {
            Err(error) => Err(ProtocolError::Decode { error }),
            Ok(Message::Update(Update::NewPost { post })) => Ok(Some(post)),
            Ok(_) => Ok(None),
        }
    }

    /// Reads the ids of newly closed posts.
    pub fn read_update_invalid(&self, data: &[u8]) -> (r: Result<Option<Vec<i32>>, ProtocolError>)
        ensures
            match decoding(data@) {
                Err(e) => r matches Err(ProtocolError::Decode { error }) && error == e,
                Ok(MessageV::Update(UpdateV::Invalid { post_ids })) => r matches Ok(Some(x)) && x@
                    == post_ids,
                Ok(_) => r matches Ok(None),
            },
    {
        match decode(data) {
            Err(error) => Err(ProtocolError::Decode { error }),
            Ok(Message::Update(Update::Invalid { post_ids })) => Ok(Some(post_ids)),
            Ok(_) => Ok(None),
        }
    }

    /// Reads the users whose standing changed.
    pub fn read_update_users(&self, data: &[u8]) -> (r: Result<Option<UsersToUpdate>, ProtocolError>)
        ensures
            match decoding(data@) {
                Err(e) => r matches Err(ProtocolError::Decode { error }) && error == e,
                Ok(MessageV::Update(UpdateV::Users { users })) => r matches Ok(Some(x))
                    && users_view(x.users@) == users,
                Ok(_) => r matches Ok(None),
            },
    {
        match decode(data) {
            Err(error) => Err(ProtocolError::Decode { error }),
            Ok(Message::Update(Update::Users { users })) => Ok(Some(UsersToUpdate { users })),
            Ok(_) => Ok(None),
        }
    }
}

} // verus!
