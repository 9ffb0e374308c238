//! The binary wire format, as mathematics: the bytes of each message,
//! what a byte string reads as, and the laws that tie the two together.
//!
//! A message is a family byte (0 request, 1 response, 2 update), a variant
//! byte, then the fields of the variant in order. Integers are little-endian
//! two's complement of their own width, a flag is one byte 0 or 1, a vote is
//! one byte (0 up, 1 neutral, 2 down), text is its UTF-8 byte length as a
//! little-endian `u64` followed by the bytes, and a list is its length as a
//! little-endian `u64` followed by its items.

use vstd::prelude::*;
use vstd::bytes::*;
use vstd::utf8::*;
use crate::protocol::{
    Kind, MessageV, PostV, RequestV, ResponseV, UpdateV, UserV, Vote, WsMessage,
};

verus! {

/// Why a byte string is not a message.
#[derive(Clone, Copy, Debug, PartialEq, Eq, Structural)]
pub enum DecodeError {
    /// The bytes end inside a field.
    Truncated,
    /// A flag, a vote or a text holds a value that no message has.
    Malformed,
    /// The family byte names no family.
    UnknownKind { tag: u8 },
    /// The variant byte names no variant of its family.
    UnknownVariant { kind: u8, tag: u8 },
    /// Bytes follow a complete message.
    TrailingBytes,
}

// ----- the encoding -----

pub open spec fn enc_i32(x: i32) -> Seq<u8> {
    spec_u32_to_le_bytes(x as u32)
}

pub open spec fn enc_i16(x: i16) -> Seq<u8> {
    spec_u16_to_le_bytes(x as u16)
}

pub open spec fn enc_len(n: nat) -> Seq<u8> {
    spec_u64_to_le_bytes(n as u64)
}

pub open spec fn enc_bool(b: bool) -> Seq<u8> {
    seq![if b { 1u8 } else { 0u8 }]
}

pub open spec fn vote_tag(v: Vote) -> u8 {
    match v {
        Vote::Up => 0,
        Vote::Neutral => 1,
        Vote::Down => 2,
    }
}

pub open spec fn enc_vote(v: Vote) -> Seq<u8> {
    seq![vote_tag(v)]
}

pub open spec fn enc_text(s: Seq<char>) -> Seq<u8> {
    enc_len(encode_utf8(s).len()) + encode_utf8(s)
}

pub open spec fn enc_user(u: UserV) -> Seq<u8> {
    enc_i32(u.id) + enc_text(u.username) + enc_i32(u.karma) + enc_i16(u.streak)
}

pub open spec fn enc_post(p: PostV) -> Seq<u8> {
    enc_i32(p.id) + enc_text(p.content) + enc_bool(p.valid) + enc_vote(p.vote) + enc_i32(
        p.author_id,
    )
}

pub open spec fn enc_user_items(s: Seq<UserV>) -> Seq<u8>
    decreases s.len(),
{
    if s.len() == 0 {
        seq![]
    } else {
        enc_user(s[0]) + enc_user_items(s.drop_first())
    }
}

pub open spec fn enc_post_items(s: Seq<PostV>) -> Seq<u8>
    decreases s.len(),
{
    if s.len() == 0 {
        seq![]
    } else {
        enc_post(s[0]) + enc_post_items(s.drop_first())
    }
}

pub open spec fn enc_i32_items(s: Seq<i32>) -> Seq<u8>
    decreases s.len(),
{
    if s.len() == 0 {
        seq![]
    } else {
        enc_i32(s[0]) + enc_i32_items(s.drop_first())
    }
}

pub open spec fn enc_users(s: Seq<UserV>) -> Seq<u8> {
    enc_len(s.len()) + enc_user_items(s)
}

pub open spec fn enc_posts(s: Seq<PostV>) -> Seq<u8> {
    enc_len(s.len()) + enc_post_items(s)
}

pub open spec fn enc_ids(s: Seq<i32>) -> Seq<u8> {
    enc_len(s.len()) + enc_i32_items(s)
}

pub open spec fn request_tag(r: RequestV) -> u8 {
    match r {
        RequestV::LoginCredentials { .. } => 0,
        RequestV::LoginToken { .. } => 1,
        RequestV::Registration { .. } => 2,
        RequestV::Logout { .. } => 3,
        RequestV::FetchPosts { .. } => 4,
        RequestV::CreatePost { .. } => 5,
        RequestV::UserVote { .. } => 6,
    }
}

pub open spec fn response_tag(r: ResponseV) -> u8 {
    match r {
        ResponseV::LoginSuccess { .. } => 0,
        ResponseV::LoginError { .. } => 1,
        ResponseV::LogoutSuccess => 2,
        ResponseV::LogoutError { .. } => 3,
        ResponseV::FetchPostsSuccess { .. } => 4,
        ResponseV::FetchPostsError { .. } => 5,
        ResponseV::CreatePostSuccess { .. } => 6,
        ResponseV::CreatePostError { .. } => 7,
        ResponseV::UserVoteSuccess { .. } => 8,
        ResponseV::UserVoteError { .. } => 9,
    }
}

pub open spec fn update_tag(u: UpdateV) -> u8 {
    match u {
        UpdateV::NewPost { .. } => 0,
        UpdateV::Invalid { .. } => 1,
        UpdateV::Users { .. } => 2,
    }
}

pub open spec fn enc_request_body(r: RequestV) -> Seq<u8> {
    match r {
        RequestV::LoginCredentials { username, password } => enc_text(username) + enc_text(
            password,
        ),
        RequestV::LoginToken { token } => enc_text(token),
        RequestV::Registration { username, password } => enc_text(username) + enc_text(password),
        RequestV::Logout { token } => enc_text(token),
        RequestV::FetchPosts { token } => enc_text(token),
        RequestV::CreatePost { token, content } => enc_text(token) + enc_text(content),
        RequestV::UserVote { token, post_id, vote } => enc_text(token) + enc_i32(post_id)
            + enc_vote(vote),
    }
}

pub open spec fn enc_response_body(r: ResponseV) -> Seq<u8> {
    match r {
        ResponseV::LoginSuccess { token, user } => enc_text(token) + enc_user(user),
        ResponseV::LoginError { description } => enc_text(description),
        ResponseV::LogoutSuccess => seq![],
        ResponseV::LogoutError { description } => enc_text(description),
        ResponseV::FetchPostsSuccess { token, posts } => enc_text(token) + enc_posts(posts),
        ResponseV::FetchPostsError { description } => enc_text(description),
        ResponseV::CreatePostSuccess { token, post } => enc_text(token) + enc_post(post),
        ResponseV::CreatePostError { description } => enc_text(description),
        ResponseV::UserVoteSuccess { token } => enc_text(token),
        ResponseV::UserVoteError { description } => enc_text(description),
    }
}

pub open spec fn enc_update_body(u: UpdateV) -> Seq<u8> {
    match u {
        UpdateV::NewPost { post } => enc_post(post),
        UpdateV::Invalid { post_ids } => enc_ids(post_ids),
        UpdateV::Users { users } => enc_users(users),
    }
}

/// The bytes of a message.
pub open spec fn encoding(m: MessageV) -> Seq<u8> {
    match m {
        MessageV::Request(r) => seq![0u8, request_tag(r)] + enc_request_body(r),
        MessageV::Response(r) => seq![1u8, response_tag(r)] + enc_response_body(r),
        MessageV::Update(u) => seq![2u8, update_tag(u)] + enc_update_body(u),
    }
}

pub(crate) proof fn lemma_user_items_push(s: Seq<UserV>, u: UserV)
    ensures
        enc_user_items(s.push(u)) == enc_user_items(s) + enc_user(u),
    decreases s.len(),
{
    if s.len() == 0 {
        assert(s.push(u).drop_first() =~= seq![]);
        assert(enc_user_items(s.push(u).drop_first()) =~= Seq::<u8>::empty());
        assert(enc_user_items(s.push(u)) =~= enc_user(u));
    } else {
        assert(s.push(u).drop_first() =~= s.drop_first().push(u));
        lemma_user_items_push(s.drop_first(), u);
        assert(enc_user_items(s.push(u)) =~= enc_user_items(s) + enc_user(u));
    }
}

pub(crate) proof fn lemma_post_items_push(s: Seq<PostV>, p: PostV)
    ensures
        enc_post_items(s.push(p)) == enc_post_items(s) + enc_post(p),
    decreases s.len(),
{
    if s.len() == 0 {
        assert(s.push(p).drop_first() =~= seq![]);
        assert(enc_post_items(s.push(p).drop_first()) =~= Seq::<u8>::empty());
        assert(enc_post_items(s.push(p)) =~= enc_post(p));
    } else {
        assert(s.push(p).drop_first() =~= s.drop_first().push(p));
        lemma_post_items_push(s.drop_first(), p);
        assert(enc_post_items(s.push(p)) =~= enc_post_items(s) + enc_post(p));
    }
}

pub(crate) proof fn lemma_i32_items_push(s: Seq<i32>, x: i32)
    ensures
        enc_i32_items(s.push(x)) == enc_i32_items(s) + enc_i32(x),
    decreases s.len(),
{
    if s.len() == 0 {
        assert(s.push(x).drop_first() =~= seq![]);
        assert(enc_i32_items(s.push(x).drop_first()) =~= Seq::<u8>::empty());
        assert(enc_i32_items(s.push(x)) =~= enc_i32(x));
    } else {
        assert(s.push(x).drop_first() =~= s.drop_first().push(x));
        lemma_i32_items_push(s.drop_first(), x);
        assert(enc_i32_items(s.push(x)) =~= enc_i32_items(s) + enc_i32(x));
    }
}

// ----- reading -----

pub open spec fn parse_u8(b: Seq<u8>, p: int) -> Result<(u8, int), DecodeError> {
    if 0 <= p && p + 1 <= b.len() {
        Ok((b[p], p + 1))
    } else {
        Err(DecodeError::Truncated)
    }
}

pub open spec fn parse_i32(b: Seq<u8>, p: int) -> Result<(i32, int), DecodeError> {
    if 0 <= p && p + 4 <= b.len() {
        Ok((spec_u32_from_le_bytes(b.subrange(p, p + 4)) as i32, p + 4))
    } else {
        Err(DecodeError::Truncated)
    }
}

pub open spec fn parse_i16(b: Seq<u8>, p: int) -> Result<(i16, int), DecodeError> {
    if 0 <= p && p + 2 <= b.len() {
        Ok((spec_u16_from_le_bytes(b.subrange(p, p + 2)) as i16, p + 2))
    } else {
        Err(DecodeError::Truncated)
    }
}

pub open spec fn parse_len(b: Seq<u8>, p: int) -> Result<(u64, int), DecodeError> {
    if 0 <= p && p + 8 <= b.len() {
        Ok((spec_u64_from_le_bytes(b.subrange(p, p + 8)), p + 8))
    } else {
        Err(DecodeError::Truncated)
    }
}

pub open spec fn parse_bool(b: Seq<u8>, p: int) -> Result<(bool, int), DecodeError> {
    match parse_u8(b, p) {
        Err(e) => Err(e),
        Ok((x, q)) => if x == 0 {
            Ok((false, q))
        } else if x == 1 {
            Ok((true, q))
        } else {
            Err(DecodeError::Malformed)
        },
    }
}

pub open spec fn parse_vote(b: Seq<u8>, p: int) -> Result<(Vote, int), DecodeError> {
    match parse_u8(b, p) {
        Err(e) => Err(e),
        Ok((x, q)) => if x == 0 {
            Ok((Vote::Up, q))
        } else if x == 1 {
            Ok((Vote::Neutral, q))
        } else if x == 2 {
            Ok((Vote::Down, q))
        } else {
            Err(DecodeError::Malformed)
        },
    }
}

pub open spec fn parse_text(b: Seq<u8>, p: int) -> Result<(Seq<char>, int), DecodeError> {
    match parse_len(b, p) {
        Err(e) => Err(e),
        Ok((n, q)) => if q + n <= b.len() {
            if valid_utf8(b.subrange(q, q + n)) {
                Ok((decode_utf8(b.subrange(q, q + n)), q + n))
            } else {
                Err(DecodeError::Malformed)
            }
        } else {
            Err(DecodeError::Truncated)
        },
    }
}

pub open spec fn parse_user(b: Seq<u8>, p: int) -> Result<(UserV, int), DecodeError> {
    match parse_i32(b, p) {
        Err(e) => Err(e),
        Ok((id, k1)) => match parse_text(b, k1) {
            Err(e) => Err(e),
            Ok((username, k2)) => match parse_i32(b, k2) {
                Err(e) => Err(e),
                Ok((karma, k3)) => match parse_i16(b, k3) {
                    Err(e) => Err(e),
                    Ok((streak, k4)) => Ok((UserV { id, username, karma, streak }, k4)),
                },
            },
        },
    }
}

pub open spec fn parse_post(b: Seq<u8>, p: int) -> Result<(PostV, int), DecodeError> {
    match parse_i32(b, p) {
        Err(e) => Err(e),
        Ok((id, k1)) => match parse_text(b, k1) {
            Err(e) => Err(e),
            Ok((content, k2)) => match parse_bool(b, k2) {
                Err(e) => Err(e),
                Ok((valid, k3)) => match parse_vote(b, k3) {
                    Err(e) => Err(e),
                    Ok((vote, k4)) => match parse_i32(b, k4) {
                        Err(e) => Err(e),
                        Ok((author_id, k5)) => Ok(
                            (PostV { id, content, valid, vote, author_id }, k5),
                        ),
                    },
                },
            },
        },
    }
}

pub open spec fn parse_user_items(b: Seq<u8>, p: int, n: nat) -> Result<
    (Seq<UserV>, int),
    DecodeError,
>
    decreases n,
{
    if n == 0 {
        Ok((seq![], p))
    } else {
        match parse_user(b, p) {
            Err(e) => Err(e),
            Ok((u, q)) => match parse_user_items(b, q, (n - 1) as nat) {
                Err(e) => Err(e),
                Ok((rest, r)) => Ok((seq![u] + rest, r)),
            },
        }
    }
}

pub open spec fn parse_post_items(b: Seq<u8>, p: int, n: nat) -> Result<
    (Seq<PostV>, int),
    DecodeError,
>
    decreases n,
{
    if n == 0 {
        Ok((seq![], p))
    } else {
        match parse_post(b, p) {
            Err(e) => Err(e),
            Ok((x, q)) => match parse_post_items(b, q, (n - 1) as nat) {
                Err(e) => Err(e),
                Ok((rest, r)) => Ok((seq![x] + rest, r)),
            },
        }
    }
}

pub open spec fn parse_i32_items(b: Seq<u8>, p: int, n: nat) -> Result<
    (Seq<i32>, int),
    DecodeError,
>
    decreases n,
{
    if n == 0 {
        Ok((seq![], p))
    } else {
        match parse_i32(b, p) {
            Err(e) => Err(e),
            Ok((x, q)) => match parse_i32_items(b, q, (n - 1) as nat) {
                Err(e) => Err(e),
                Ok((rest, r)) => Ok((seq![x] + rest, r)),
            },
        }
    }
}

pub open spec fn parse_users(b: Seq<u8>, p: int) -> Result<(Seq<UserV>, int), DecodeError> {
    match parse_len(b, p) {
        Err(e) => Err(e),
        Ok((n, q)) => parse_user_items(b, q, n as nat),
    }
}

pub open spec fn parse_posts(b: Seq<u8>, p: int) -> Result<(Seq<PostV>, int), DecodeError> {
    match parse_len(b, p) {
        Err(e) => Err(e),
        Ok((n, q)) => parse_post_items(b, q, n as nat),
    }
}

pub open spec fn parse_ids(b: Seq<u8>, p: int) -> Result<(Seq<i32>, int), DecodeError> {
    match parse_len(b, p) {
        Err(e) => Err(e),
        Ok((n, q)) => parse_i32_items(b, q, n as nat),
    }
}

pub open spec fn parse_request(b: Seq<u8>, tag: u8, p: int) -> Result<
    (RequestV, int),
    DecodeError,
> {
    if tag == 0 || tag == 2 {
        match parse_text(b, p) {
            Err(e) => Err(e),
            Ok((username, k1)) => match parse_text(b, k1) {
                Err(e) => Err(e),
                Ok((password, k2)) => Ok(
                    (
                        if tag == 0 {
                            RequestV::LoginCredentials { username, password }
                        } else {
                            RequestV::Registration { username, password }
                        },
                        k2,
                    ),
                ),
            },
        }
    } else if tag == 1 || tag == 3 || tag == 4 {
        match parse_text(b, p) {
            Err(e) => Err(e),
            Ok((token, k1)) => Ok(
                (
                    if tag == 1 {
                        RequestV::LoginToken { token }
                    } else if tag == 3 {
                        RequestV::Logout { token }
                    } else {
                        RequestV::FetchPosts { token }
                    },
                    k1,
                ),
            ),
        }
    } else if tag == 5 {
        match parse_text(b, p) {
            Err(e) => Err(e),
            Ok((token, k1)) => match parse_text(b, k1) {
                Err(e) => Err(e),
                Ok((content, k2)) => Ok((RequestV::CreatePost { token, content }, k2)),
            },
        }
    } else if tag == 6 {
        match parse_text(b, p) {
            Err(e) => Err(e),
            Ok((token, k1)) => match parse_i32(b, k1) {
                Err(e) => Err(e),
                Ok((post_id, k2)) => match parse_vote(b, k2) {
                    Err(e) => Err(e),
                    Ok((vote, k3)) => Ok((RequestV::UserVote { token, post_id, vote }, k3)),
                },
            },
        }
    } else {
        Err(DecodeError::UnknownVariant { kind: 0, tag })
    }
}

pub open spec fn is_error_tag(tag: u8) -> bool {
    tag == 1 || tag == 3 || tag == 5 || tag == 7 || tag == 9
}

pub open spec fn error_response(tag: u8, description: Seq<char>) -> ResponseV {
    if tag == 1 {
        ResponseV::LoginError { description }
    } else if tag == 3 {
        ResponseV::LogoutError { description }
    } else if tag == 5 {
        ResponseV::FetchPostsError { description }
    } else if tag == 7 {
        ResponseV::CreatePostError { description }
    } else {
        ResponseV::UserVoteError { description }
    }
}

pub open spec fn parse_response(b: Seq<u8>, tag: u8, p: int) -> Result<
    (ResponseV, int),
    DecodeError,
> {
    if is_error_tag(tag) {
        match parse_text(b, p) {
            Err(e) => Err(e),
            Ok((description, k1)) => Ok((error_response(tag, description), k1)),
        }
    } else if tag == 2 {
        Ok((ResponseV::LogoutSuccess, p))
    } else if tag == 0 || tag == 4 || tag == 6 || tag == 8 {
        match parse_text(b, p) {
            Err(e) => Err(e),
            Ok((token, k1)) => if tag == 0 {
                match parse_user(b, k1) {
                    Err(e) => Err(e),
                    Ok((user, k2)) => Ok((ResponseV::LoginSuccess { token, user }, k2)),
                }
            } else if tag == 4 {
                match parse_posts(b, k1) {
                    Err(e) => Err(e),
                    Ok((posts, k2)) => Ok((ResponseV::FetchPostsSuccess { token, posts }, k2)),
                }
            } else if tag == 6 {
                match parse_post(b, k1) {
                    Err(e) => Err(e),
                    Ok((post, k2)) => Ok((ResponseV::CreatePostSuccess { token, post }, k2)),
                }
            } else {
                Ok((ResponseV::UserVoteSuccess { token }, k1))
            },
        }
    } else {
        Err(DecodeError::UnknownVariant { kind: 1, tag })
    }
}

pub open spec fn parse_update(b: Seq<u8>, tag: u8, p: int) -> Result<
    (UpdateV, int),
    DecodeError,
> {
    if tag == 0 {
        match parse_post(b, p) {
            Err(e) => Err(e),
            Ok((post, k1)) => Ok((UpdateV::NewPost { post }, k1)),
        }
    } else if tag == 1 {
        match parse_ids(b, p) {
            Err(e) => Err(e),
            Ok((post_ids, k1)) => Ok((UpdateV::Invalid { post_ids }, k1)),
        }
    } else if tag == 2 {
        match parse_users(b, p) {
            Err(e) => Err(e),
            Ok((users, k1)) => Ok((UpdateV::Users { users }, k1)),
        }
    } else {
        Err(DecodeError::UnknownVariant { kind: 2, tag })
    }
}

pub open spec fn parse_body(b: Seq<u8>, kind: u8, tag: u8, p: int) -> Result<
    (MessageV, int),
    DecodeError,
> {
    if kind == 0 {
        match parse_request(b, tag, p) {
            Err(e) => Err(e),
            Ok((r, q)) => Ok((MessageV::Request(r), q)),
        }
    } else if kind == 1 {
        match parse_response(b, tag, p) {
            Err(e) => Err(e),
            Ok((r, q)) => Ok((MessageV::Response(r), q)),
        }
    } else {
        match parse_update(b, tag, p) {
            Err(e) => Err(e),
            Ok((u, q)) => Ok((MessageV::Update(u), q)),
        }
    }
}

/// What a byte string decodes to.
pub open spec fn decoding(b: Seq<u8>) -> Result<MessageV, DecodeError> {
    match parse_u8(b, 0) {
        Err(e) => Err(e),
        Ok((kind, k1)) => if kind > 2 {
            Err(DecodeError::UnknownKind { tag: kind })
        } else {
            match parse_u8(b, k1) {
                Err(e) => Err(e),
                Ok((tag, k2)) => match parse_body(b, kind, tag, k2) {
                    Err(e) => Err(e),
                    Ok((m, k3)) => if k3 == b.len() {
                        Ok(m)
                    } else {
                        Err(DecodeError::TrailingBytes)
                    },
                },
            }
        },
    }
}

pub open spec fn family(kind: u8) -> Kind {
    if kind == 0 {
        Kind::Request
    } else if kind == 1 {
        Kind::Response
    } else {
        Kind::Update
    }
}

pub open spec fn subject(kind: u8, tag: u8) -> WsMessage {
    if kind == 2 {
        if tag == 0 {
            WsMessage::NewPost
        } else if tag == 1 {
            WsMessage::InvalidPosts
        } else {
            WsMessage::UpdateUsers
        }
    } else if kind == 0 {
        if tag <= 1 {
            WsMessage::Login
        } else if tag == 2 {
            WsMessage::Registration
        } else if tag == 3 {
            WsMessage::Logout
        } else if tag == 4 {
            WsMessage::FetchPosts
        } else if tag == 5 {
            WsMessage::CreatePost
        } else {
            WsMessage::UserVote
        }
    } else {
        if tag <= 1 {
            WsMessage::Login
        } else if tag <= 3 {
            WsMessage::Logout
        } else if tag <= 5 {
            WsMessage::FetchPosts
        } else if tag <= 7 {
            WsMessage::CreatePost
        } else {
            WsMessage::UserVote
        }
    }
}

pub open spec fn tag_count(kind: u8) -> u8 {
    if kind == 0 {
        7
    } else if kind == 1 {
        10
    } else {
        3
    }
}

/// The family and subject that the two leading bytes announce.
pub open spec fn classification(b: Seq<u8>) -> Result<(Kind, WsMessage), DecodeError> {
    match parse_u8(b, 0) {
        Err(e) => Err(e),
        Ok((kind, k1)) => if kind > 2 {
            Err(DecodeError::UnknownKind { tag: kind })
        } else {
            match parse_u8(b, k1) {
                Err(e) => Err(e),
                Ok((tag, _)) => if tag < tag_count(kind) {
                    Ok((family(kind), subject(kind, tag)))
                } else {
                    Err(DecodeError::UnknownVariant { kind, tag })
                },
            }
        },
    }
}

/// The family and subject of a message.
pub open spec fn class_of(m: MessageV) -> (Kind, WsMessage) {
    match m {
        MessageV::Request(r) => (Kind::Request, subject(0, request_tag(r))),
        MessageV::Response(r) => (Kind::Response, subject(1, response_tag(r))),
        MessageV::Update(u) => (Kind::Update, subject(2, update_tag(u))),
    }
}

pub open spec fn at<T>(r: Result<(T, usize), DecodeError>) -> Result<(T, int), DecodeError> {
    match r {
        Ok((x, q)) => Ok((x, q as int)),
        Err(e) => Err(e),
    }
}

pub open spec fn at_view<T: View>(r: Result<(T, usize), DecodeError>) -> Result<
    (T::V, int),
    DecodeError,
> {
    match r {
        Ok((x, q)) => Ok((x@, q as int)),
        Err(e) => Err(e),
    }
}

pub open spec fn ends_within<T>(r: Result<(T, usize), DecodeError>, n: int) -> bool {
    r matches Ok((_, q)) ==> q <= n
}

// ----- the format reads back what it writes -----

/// `e` stands in `b` from position `p` on.
pub open spec fn holds_at(b: Seq<u8>, p: int, e: Seq<u8>) -> bool {
    0 <= p && p + e.len() <= b.len() && b.subrange(p, p + e.len()) == e
}

pub open spec fn text_fits(s: Seq<char>) -> bool {
    encode_utf8(s).len() <= u64::MAX
}

pub open spec fn user_fits(u: UserV) -> bool {
    text_fits(u.username)
}

pub open spec fn post_fits(p: PostV) -> bool {
    text_fits(p.content)
}

/// Every length in the message can be written in its 64-bit prefix.
pub open spec fn fits(m: MessageV) -> bool {
    match m {
        MessageV::Request(r) => match r {
            RequestV::LoginCredentials { username, password } => text_fits(username) && text_fits(
                password,
            ),
            RequestV::LoginToken { token } => text_fits(token),
            RequestV::Registration { username, password } => text_fits(username) && text_fits(
                password,
            ),
            RequestV::Logout { token } => text_fits(token),
            RequestV::FetchPosts { token } => text_fits(token),
            RequestV::CreatePost { token, content } => text_fits(token) && text_fits(content),
            RequestV::UserVote { token, .. } => text_fits(token),
        },
        MessageV::Response(r) => match r {
            ResponseV::LoginSuccess { token, user } => text_fits(token) && user_fits(user),
            ResponseV::LoginError { description } => text_fits(description),
            ResponseV::LogoutSuccess => true,
            ResponseV::LogoutError { description } => text_fits(description),
            ResponseV::FetchPostsSuccess { token, posts } => text_fits(token) && posts.len()
                <= u64::MAX && forall|i: int| 0 <= i < posts.len() ==> post_fits(#[trigger] posts[i]),
            ResponseV::FetchPostsError { description } => text_fits(description),
            ResponseV::CreatePostSuccess { token, post } => text_fits(token) && post_fits(post),
            ResponseV::CreatePostError { description } => text_fits(description),
            ResponseV::UserVoteSuccess { token } => text_fits(token),
            ResponseV::UserVoteError { description } => text_fits(description),
        },
        MessageV::Update(u) => match u {
            UpdateV::NewPost { post } => post_fits(post),
            UpdateV::Invalid { post_ids } => post_ids.len() <= u64::MAX,
            UpdateV::Users { users } => users.len() <= u64::MAX && forall|i: int|
                0 <= i < users.len() ==> user_fits(#[trigger] users[i]),
        },
    }
}

proof fn lemma_split(b: Seq<u8>, p: int, x: Seq<u8>, y: Seq<u8>)
    requires
        holds_at(b, p, x + y),
    ensures
        holds_at(b, p, x),
        holds_at(b, p + x.len(), y),
{
    assert(b.subrange(p, p + x.len()) =~= (x + y).subrange(0, x.len() as int));
    assert(b.subrange(p + x.len(), p + x.len() + y.len()) =~= (x + y).subrange(
        x.len() as int,
        (x.len() + y.len()) as int,
    ));
    assert((x + y).subrange(0, x.len() as int) =~= x);
    assert((x + y).subrange(x.len() as int, (x.len() + y.len()) as int) =~= y);
}

proof fn lemma_read_i32(b: Seq<u8>, p: int, x: i32)
    requires
        holds_at(b, p, enc_i32(x)),
    ensures
        parse_i32(b, p) == Ok::<(i32, int), DecodeError>((x, p + 4)),
{
    lemma_auto_spec_u32_to_from_le_bytes();
    assert(((x as u32) as i32) == x) by (bit_vector);
}

proof fn lemma_read_i16(b: Seq<u8>, p: int, x: i16)
    requires
        holds_at(b, p, enc_i16(x)),
    ensures
        parse_i16(b, p) == Ok::<(i16, int), DecodeError>((x, p + 2)),
{
    lemma_auto_spec_u16_to_from_le_bytes();
    assert(((x as u16) as i16) == x) by (bit_vector);
}

proof fn lemma_read_len(b: Seq<u8>, p: int, n: nat)
    requires
        n <= u64::MAX,
        holds_at(b, p, enc_len(n)),
    ensures
        parse_len(b, p) == Ok::<(u64, int), DecodeError>((n as u64, p + 8)),
{
    lemma_auto_spec_u64_to_from_le_bytes();
    assert(spec_u64_to_le_bytes(n as u64).len() == 8);
}

proof fn lemma_read_bool(b: Seq<u8>, p: int, x: bool)
    requires
        holds_at(b, p, enc_bool(x)),
    ensures
        parse_bool(b, p) == Ok::<(bool, int), DecodeError>((x, p + 1)),
{
    assert(b[p] == b.subrange(p, p + 1)[0]);
}

proof fn lemma_read_vote(b: Seq<u8>, p: int, x: Vote)
    requires
        holds_at(b, p, enc_vote(x)),
    ensures
        parse_vote(b, p) == Ok::<(Vote, int), DecodeError>((x, p + 1)),
{
    assert(b[p] == b.subrange(p, p + 1)[0]);
}

proof fn lemma_read_text(b: Seq<u8>, p: int, s: Seq<char>)
    requires
        text_fits(s),
        holds_at(b, p, enc_text(s)),
    ensures
        parse_text(b, p) == Ok::<(Seq<char>, int), DecodeError>((s, p + enc_text(s).len())),
{
    let e = encode_utf8(s);
    lemma_split(b, p, enc_len(e.len()), e);
    lemma_read_len(b, p, e.len());
    lemma_auto_spec_u64_to_from_le_bytes();
    assert(enc_len(e.len()).len() == 8);
    encode_utf8_valid_utf8(s);
    encode_utf8_decode_utf8(s);
}

proof fn lemma_read_user(b: Seq<u8>, p: int, u: UserV)
    requires
        user_fits(u),
        holds_at(b, p, enc_user(u)),
    ensures
        parse_user(b, p) == Ok::<(UserV, int), DecodeError>((u, p + enc_user(u).len())),
{
    lemma_auto_spec_u32_to_from_le_bytes();
    lemma_auto_spec_u16_to_from_le_bytes();
    let a = enc_i32(u.id);
    let t = enc_text(u.username);
    let k = enc_i32(u.karma);
    let s = enc_i16(u.streak);
    assert(enc_user(u) == ((a + t) + k) + s);
    lemma_split(b, p, (a + t) + k, s);
    lemma_split(b, p, a + t, k);
    lemma_split(b, p, a, t);
    lemma_read_i32(b, p, u.id);
    lemma_read_text(b, p + 4, u.username);
    lemma_read_i32(b, p + 4 + t.len(), u.karma);
    lemma_read_i16(b, p + 8 + t.len(), u.streak);
}

proof fn lemma_read_post(b: Seq<u8>, p: int, x: PostV)
    requires
        post_fits(x),
        holds_at(b, p, enc_post(x)),
    ensures
        parse_post(b, p) == Ok::<(PostV, int), DecodeError>((x, p + enc_post(x).len())),
{
    lemma_auto_spec_u32_to_from_le_bytes();
    let a = enc_i32(x.id);
    let t = enc_text(x.content);
    let v = enc_bool(x.valid);
    let w = enc_vote(x.vote);
    let c = enc_i32(x.author_id);
    assert(enc_post(x) == (((a + t) + v) + w) + c);
    lemma_split(b, p, ((a + t) + v) + w, c);
    lemma_split(b, p, (a + t) + v, w);
    lemma_split(b, p, a + t, v);
    lemma_split(b, p, a, t);
    lemma_read_i32(b, p, x.id);
    lemma_read_text(b, p + 4, x.content);
    lemma_read_bool(b, p + 4 + t.len(), x.valid);
    lemma_read_vote(b, p + 5 + t.len(), x.vote);
    lemma_read_i32(b, p + 6 + t.len(), x.author_id);
}

proof fn lemma_read_user_items(b: Seq<u8>, p: int, s: Seq<UserV>)
    requires
        forall|i: int| 0 <= i < s.len() ==> user_fits(#[trigger] s[i]),
        holds_at(b, p, enc_user_items(s)),
    ensures
        parse_user_items(b, p, s.len()) == Ok::<(Seq<UserV>, int), DecodeError>(
            (s, p + enc_user_items(s).len()),
        ),
    decreases s.len(),
{
    if s.len() == 0 {
        assert(parse_user_items(b, p, 0) == Ok::<(Seq<UserV>, int), DecodeError>((seq![], p)));
        assert(s =~= seq![]);
    } else {
        let rest = s.drop_first();
        lemma_split(b, p, enc_user(s[0]), enc_user_items(rest));
        lemma_read_user(b, p, s[0]);
        assert forall|i: int| 0 <= i < rest.len() implies user_fits(#[trigger] rest[i]) by {
            assert(rest[i] == s[i + 1]);
        }
        lemma_read_user_items(b, p + enc_user(s[0]).len(), rest);
        assert((s.len() - 1) as nat == rest.len());
        assert(seq![s[0]] + rest =~= s);
    }
}

proof fn lemma_read_post_items(b: Seq<u8>, p: int, s: Seq<PostV>)
    requires
        forall|i: int| 0 <= i < s.len() ==> post_fits(#[trigger] s[i]),
        holds_at(b, p, enc_post_items(s)),
    ensures
        parse_post_items(b, p, s.len()) == Ok::<(Seq<PostV>, int), DecodeError>(
            (s, p + enc_post_items(s).len()),
        ),
    decreases s.len(),
{
    if s.len() == 0 {
        assert(parse_post_items(b, p, 0) == Ok::<(Seq<PostV>, int), DecodeError>((seq![], p)));
        assert(s =~= seq![]);
    } else {
        let rest = s.drop_first();
        lemma_split(b, p, enc_post(s[0]), enc_post_items(rest));
        lemma_read_post(b, p, s[0]);
        assert forall|i: int| 0 <= i < rest.len() implies post_fits(#[trigger] rest[i]) by {
            assert(rest[i] == s[i + 1]);
        }
        lemma_read_post_items(b, p + enc_post(s[0]).len(), rest);
        assert((s.len() - 1) as nat == rest.len());
        assert(seq![s[0]] + rest =~= s);
    }
}

proof fn lemma_read_i32_items(b: Seq<u8>, p: int, s: Seq<i32>)
    requires
        holds_at(b, p, enc_i32_items(s)),
    ensures
        parse_i32_items(b, p, s.len()) == Ok::<(Seq<i32>, int), DecodeError>(
            (s, p + enc_i32_items(s).len()),
        ),
    decreases s.len(),
{
    lemma_auto_spec_u32_to_from_le_bytes();
    if s.len() == 0 {
        assert(parse_i32_items(b, p, 0) == Ok::<(Seq<i32>, int), DecodeError>((seq![], p)));
        assert(s =~= seq![]);
    } else {
        let rest = s.drop_first();
        lemma_split(b, p, enc_i32(s[0]), enc_i32_items(rest));
        lemma_read_i32(b, p, s[0]);
        lemma_read_i32_items(b, p + 4, rest);
        assert((s.len() - 1) as nat == rest.len());
        assert(seq![s[0]] + rest =~= s);
    }
}

proof fn lemma_read_request(b: Seq<u8>, p: int, r: RequestV)
    requires
        fits(MessageV::Request(r)),
        holds_at(b, p, enc_request_body(r)),
    ensures
        parse_request(b, request_tag(r), p) == Ok::<(RequestV, int), DecodeError>(
            (r, p + enc_request_body(r).len()),
        ),
{
    lemma_auto_spec_u32_to_from_le_bytes();
    match r {
        RequestV::LoginCredentials { username, password } => {
            lemma_split(b, p, enc_text(username), enc_text(password));
            lemma_read_text(b, p, username);
            lemma_read_text(b, p + enc_text(username).len(), password);
        },
        RequestV::Registration { username, password } => {
            lemma_split(b, p, enc_text(username), enc_text(password));
            lemma_read_text(b, p, username);
            lemma_read_text(b, p + enc_text(username).len(), password);
        },
        RequestV::LoginToken { token } => {
            lemma_read_text(b, p, token);
        },
        RequestV::Logout { token } => {
            lemma_read_text(b, p, token);
        },
        RequestV::FetchPosts { token } => {
            lemma_read_text(b, p, token);
        },
        RequestV::CreatePost { token, content } => {
            lemma_split(b, p, enc_text(token), enc_text(content));
            lemma_read_text(b, p, token);
            lemma_read_text(b, p + enc_text(token).len(), content);
        },
        RequestV::UserVote { token, post_id, vote } => {
            let t = enc_text(token);
            lemma_split(b, p, t + enc_i32(post_id), enc_vote(vote));
            lemma_split(b, p, t, enc_i32(post_id));
            lemma_read_text(b, p, token);
            lemma_read_i32(b, p + t.len(), post_id);
            lemma_read_vote(b, p + t.len() + 4, vote);
        },
    }
}

proof fn lemma_read_response(b: Seq<u8>, p: int, r: ResponseV)
    requires
        fits(MessageV::Response(r)),
        holds_at(b, p, enc_response_body(r)),
    ensures
        parse_response(b, response_tag(r), p) == Ok::<(ResponseV, int), DecodeError>(
            (r, p + enc_response_body(r).len()),
        ),
{
    lemma_auto_spec_u64_to_from_le_bytes();
    match r {
        ResponseV::LoginSuccess { token, user } => {
            lemma_split(b, p, enc_text(token), enc_user(user));
            lemma_read_text(b, p, token);
            lemma_read_user(b, p + enc_text(token).len(), user);
        },
        ResponseV::LoginError { description } => {
            lemma_read_text(b, p, description);
        },
        ResponseV::LogoutSuccess => {},
        ResponseV::LogoutError { description } => {
            lemma_read_text(b, p, description);
        },
        ResponseV::FetchPostsSuccess { token, posts } => {
            let t = enc_text(token);
            let q = p + t.len();
            lemma_split(b, p, t, enc_posts(posts));
            lemma_read_text(b, p, token);
            lemma_split(b, q, enc_len(posts.len()), enc_post_items(posts));
            lemma_read_len(b, q, posts.len());
            assert(enc_len(posts.len()).len() == 8);
            lemma_read_post_items(b, q + 8, posts);
        },
        ResponseV::FetchPostsError { description } => {
            lemma_read_text(b, p, description);
        },
        ResponseV::CreatePostSuccess { token, post } => {
            lemma_split(b, p, enc_text(token), enc_post(post));
            lemma_read_text(b, p, token);
            lemma_read_post(b, p + enc_text(token).len(), post);
        },
        ResponseV::CreatePostError { description } => {
            lemma_read_text(b, p, description);
        },
        ResponseV::UserVoteSuccess { token } => {
            lemma_read_text(b, p, token);
        },
        ResponseV::UserVoteError { description } => {
            lemma_read_text(b, p, description);
        },
    }
}

proof fn lemma_read_update(b: Seq<u8>, p: int, u: UpdateV)
    requires
        fits(MessageV::Update(u)),
        holds_at(b, p, enc_update_body(u)),
    ensures
        parse_update(b, update_tag(u), p) == Ok::<(UpdateV, int), DecodeError>(
            (u, p + enc_update_body(u).len()),
        ),
{
    lemma_auto_spec_u64_to_from_le_bytes();
    match u {
        UpdateV::NewPost { post } => {
            lemma_read_post(b, p, post);
        },
        UpdateV::Invalid { post_ids } => {
            lemma_split(b, p, enc_len(post_ids.len()), enc_i32_items(post_ids));
            lemma_read_len(b, p, post_ids.len());
            assert(enc_len(post_ids.len()).len() == 8);
            lemma_read_i32_items(b, p + 8, post_ids);
        },
        UpdateV::Users { users } => {
            lemma_split(b, p, enc_len(users.len()), enc_user_items(users));
            lemma_read_len(b, p, users.len());
            assert(enc_len(users.len()).len() == 8);
            lemma_read_user_items(b, p + 8, users);
        },
    }
}

/// Decoding the bytes of any message whose lengths fit their prefixes gives
/// back that same message: `decode(encode(m))` is `m`.
pub proof fn round_trip(m: MessageV)
    requires
        fits(m),
    ensures
        decoding(encoding(m)) == Ok::<MessageV, DecodeError>(m),
{
    let b = encoding(m);
    match m {
        MessageV::Request(r) => {
            let body = enc_request_body(r);
            assert(b == seq![0u8, request_tag(r)] + body);
            assert(b.subrange(2, 2 + body.len() as int) =~= body);
            lemma_read_request(b, 2, r);
        },
        MessageV::Response(r) => {
            let body = enc_response_body(r);
            assert(b == seq![1u8, response_tag(r)] + body);
            assert(b.subrange(2, 2 + body.len() as int) =~= body);
            lemma_read_response(b, 2, r);
        },
        MessageV::Update(u) => {
            let body = enc_update_body(u);
            assert(b == seq![2u8, update_tag(u)] + body);
            assert(b.subrange(2, 2 + body.len() as int) =~= body);
            lemma_read_update(b, 2, u);
        },
    }
}

/// The family and subject that `classify` reads from the bytes of a message
/// are those of the message itself.
pub proof fn classify_encoded(m: MessageV)
    ensures
        classification(encoding(m)) == Ok::<(Kind, WsMessage), DecodeError>(class_of(m)),
{
    let b = encoding(m);
    match m {
        MessageV::Request(r) => {
            assert(b == seq![0u8, request_tag(r)] + enc_request_body(r));
        },
        MessageV::Response(r) => {
            assert(b == seq![1u8, response_tag(r)] + enc_response_body(r));
        },
        MessageV::Update(u) => {
            assert(b == seq![2u8, update_tag(u)] + enc_update_body(u));
        },
    }
}

} // verus!
