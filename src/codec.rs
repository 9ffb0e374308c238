//! Reading and writing messages in the wire format of `format`.

use vstd::prelude::*;
use vstd::bytes::*;
use vstd::slice::*;
use vstd::string::*;
use vstd::utf8::*;
use crate::format::{
    at, at_view, ends_within, enc_bool, enc_i16, enc_i32, enc_ids, enc_len, enc_post,
    enc_post_items, enc_posts, enc_request_body, enc_response_body, enc_text, enc_update_body,
    enc_user, enc_user_items, enc_users, enc_vote, encoding, lemma_i32_items_push,
    lemma_post_items_push, lemma_user_items_push, parse_bool, parse_i16, parse_i32, parse_ids,
    parse_len, parse_post, parse_post_items, parse_posts, parse_request, parse_response,
    parse_text, parse_u8, parse_update, parse_user, parse_user_items, parse_users,
    parse_i32_items, parse_vote, enc_i32_items, request_tag, response_tag, update_tag,
    classification, decoding,
};
pub use crate::format::DecodeError;
use crate::protocol::{
    Kind, Message, MessageV, Post, PostV, Request, Response, Update, UpdateV, User, UserV, Vote,
    WsMessage, posts_view, users_view,
};

verus! {

// ----- writing -----

fn put_u8(out: &mut Vec<u8>, x: u8)
    ensures
        final(out)@ == old(out)@ + seq![x],
{
    out.push(x);
    assert(final(out)@ =~= old(out)@ + seq![x]);
}

fn put_i32(out: &mut Vec<u8>, x: i32)
    ensures
        final(out)@ == old(out)@ + enc_i32(x),
{
    let mut b = u32_to_le_bytes(x as u32);
    out.append(&mut b);
}

fn put_i16(out: &mut Vec<u8>, x: i16)
    ensures
        final(out)@ == old(out)@ + enc_i16(x),
{
    let mut b = u16_to_le_bytes(x as u16);
    out.append(&mut b);
}

fn put_len(out: &mut Vec<u8>, n: usize)
    ensures
        final(out)@ == old(out)@ + enc_len(n as nat),
{
    let mut b = u64_to_le_bytes(n as u64);
    out.append(&mut b);
}

fn put_bool(out: &mut Vec<u8>, b: bool)
    ensures
        final(out)@ == old(out)@ + enc_bool(b),
{
    put_u8(out, if b { 1u8 } else { 0u8 });
}

fn put_vote(out: &mut Vec<u8>, v: Vote)
    ensures
        final(out)@ == old(out)@ + enc_vote(v),
{
    let t: u8 = match v {
        Vote::Up => 0,
        Vote::Neutral => 1,
        Vote::Down => 2,
    };
    put_u8(out, t);
}

fn put_text(out: &mut Vec<u8>, s: &String)
    ensures
        final(out)@ == old(out)@ + enc_text(s@),
{
    let bytes = s.as_str().as_bytes();
    put_len(out, bytes.len());
    out.extend_from_slice(bytes);
    assert(final(out)@ =~= old(out)@ + enc_text(s@));
}

fn put_user(out: &mut Vec<u8>, u: &User)
    ensures
        final(out)@ == old(out)@ + enc_user(u@),
{
    put_i32(out, u.id);
    put_text(out, &u.username);
    put_i32(out, u.karma);
    put_i16(out, u.streak);
    assert(final(out)@ =~= old(out)@ + enc_user(u@));
}

fn put_post(out: &mut Vec<u8>, p: &Post)
    ensures
        final(out)@ == old(out)@ + enc_post(p@),
{
    put_i32(out, p.id);
    put_text(out, &p.content);
    put_bool(out, p.valid);
    put_vote(out, p.vote);
    put_i32(out, p.author_id);
    assert(final(out)@ =~= old(out)@ + enc_post(p@));
}

fn put_users(out: &mut Vec<u8>, users: &Vec<User>)
    ensures
        final(out)@ == old(out)@ + enc_users(users_view(users@)),
{
    put_len(out, users.len());
    let ghost start = out@;
    let mut i: usize = 0;
    while i < users.len()
        invariant
            i <= users.len(),
            out@ == start + enc_user_items(users_view(users@.take(i as int))),
        decreases users.len() - i,
    {
        put_user(out, &users[i]);
        proof {
            assert(users@.take(i + 1) =~= users@.take(i as int).push(users@[i as int]));
            assert(users_view(users@.take(i + 1)) =~= users_view(users@.take(i as int)).push(
                users@[i as int]@,
            ));
            lemma_user_items_push(users_view(users@.take(i as int)), users@[i as int]@);
        }
        i += 1;
    }
    assert(users@.take(i as int) =~= users@);
    assert(users_view(users@).len() == users@.len());
    assert(final(out)@ =~= old(out)@ + enc_users(users_view(users@)));
}

fn put_posts(out: &mut Vec<u8>, posts: &Vec<Post>)
    ensures
        final(out)@ == old(out)@ + enc_posts(posts_view(posts@)),
{
    put_len(out, posts.len());
    let ghost start = out@;
    let mut i: usize = 0;
    while i < posts.len()
        invariant
            i <= posts.len(),
            out@ == start + enc_post_items(posts_view(posts@.take(i as int))),
        decreases posts.len() - i,
    {
        put_post(out, &posts[i]);
        proof {
            assert(posts@.take(i + 1) =~= posts@.take(i as int).push(posts@[i as int]));
            assert(posts_view(posts@.take(i + 1)) =~= posts_view(posts@.take(i as int)).push(
                posts@[i as int]@,
            ));
            lemma_post_items_push(posts_view(posts@.take(i as int)), posts@[i as int]@);
        }
        i += 1;
    }
    assert(posts@.take(i as int) =~= posts@);
    assert(final(out)@ =~= old(out)@ + enc_posts(posts_view(posts@)));
}

fn put_ids(out: &mut Vec<u8>, ids: &Vec<i32>)
    ensures
        final(out)@ == old(out)@ + enc_ids(ids@),
{
    put_len(out, ids.len());
    let ghost start = out@;
    let mut i: usize = 0;
    while i < ids.len()
        invariant
            i <= ids.len(),
            out@ == start + enc_i32_items(ids@.take(i as int)),
        decreases ids.len() - i,
    {
        put_i32(out, ids[i]);
        proof {
            assert(ids@.take(i + 1) =~= ids@.take(i as int).push(ids@[i as int]));
            lemma_i32_items_push(ids@.take(i as int), ids@[i as int]);
        }
        i += 1;
    }
    assert(ids@.take(i as int) =~= ids@);
    assert(final(out)@ =~= old(out)@ + enc_ids(ids@));
}

fn get_u8(b: &[u8], p: usize) -> (r: Result<(u8, usize), DecodeError>)
    requires
        p <= b@.len(),
    ensures
        at(r) == parse_u8(b@, p as int),
        ends_within(r, b@.len() as int),
{
    if p < b.len() {
        Ok((b[p], p + 1))
    } else {
        Err(DecodeError::Truncated)
    }
}

fn get_i32(b: &[u8], p: usize) -> (r: Result<(i32, usize), DecodeError>)
    requires
        p <= b@.len(),
    ensures
        at(r) == parse_i32(b@, p as int),
        ends_within(r, b@.len() as int),
{
    if b.len() - p >= 4 {
        let x = u32_from_le_bytes(slice_subrange(b, p, p + 4));
        Ok((x as i32, p + 4))
    } else {
        Err(DecodeError::Truncated)
    }
}

fn get_i16(b: &[u8], p: usize) -> (r: Result<(i16, usize), DecodeError>)
    requires
        p <= b@.len(),
    ensures
        at(r) == parse_i16(b@, p as int),
        ends_within(r, b@.len() as int),
{
    if b.len() - p >= 2 {
        let x = u16_from_le_bytes(slice_subrange(b, p, p + 2));
        Ok((x as i16, p + 2))
    } else {
        Err(DecodeError::Truncated)
    }
}

fn get_len(b: &[u8], p: usize) -> (r: Result<(u64, usize), DecodeError>)
    requires
        p <= b@.len(),
    ensures
        at(r) == parse_len(b@, p as int),
        ends_within(r, b@.len() as int),
{
    if b.len() - p >= 8 {
        let x = u64_from_le_bytes(slice_subrange(b, p, p + 8));
        Ok((x, p + 8))
    } else {
        Err(DecodeError::Truncated)
    }
}

fn get_bool(b: &[u8], p: usize) -> (r: Result<(bool, usize), DecodeError>)
    requires
        p <= b@.len(),
    ensures
        at(r) == parse_bool(b@, p as int),
        ends_within(r, b@.len() as int),
{
    match get_u8(b, p) {
        Err(e) => Err(e),
        Ok((x, q)) => if x == 0 {
            Ok((false, q))
        } else if x == 1 {
            Ok((true, q))
        } else {
            Err(DecodeError::Malformed)
        },
    }
}

fn get_vote(b: &[u8], p: usize) -> (r: Result<(Vote, usize), DecodeError>)
    requires
        p <= b@.len(),
    ensures
        at(r) == parse_vote(b@, p as int),
        ends_within(r, b@.len() as int),
{
    match get_u8(b, p) {
        Err(e) => Err(e),
        Ok((x, q)) => if x == 0 {
            Ok((Vote::Up, q))
        } else if x == 1 {
            Ok((Vote::Neutral, q))
        } else if x == 2 {
            Ok((Vote::Down, q))
        } else {
            Err(DecodeError::Malformed)
        },
    }
}

/// Relies on `std::str::from_utf8`, which accepts exactly the well-formed
/// UTF-8 byte strings; the text it returns is the one those bytes encode.
#[verifier::external_body]
pub(crate) fn text_from_utf8(b: &[u8]) -> (r: Option<String>)
    ensures
        r is Some <==> valid_utf8(b@),
        r matches Some(s) ==> encode_utf8(s@) == b@,
{
    std::str::from_utf8(b).ok().map(|s| s.to_string())
}

fn get_text(b: &[u8], p: usize) -> (r: Result<(String, usize), DecodeError>)
    requires
        p <= b@.len(),
    ensures
        at_view(r) == parse_text(b@, p as int),
        ends_within(r, b@.len() as int),
{
    match get_len(b, p) {
        Err(e) => Err(e),
        Ok((n, q)) => if n <= (b.len() - q) as u64 {
            let end = q + n as usize;
            let bytes = slice_subrange(b, q, end);
            match text_from_utf8(bytes) {
                Some(s) => {
                    proof {
                        encode_utf8_decode_utf8(s@);
                    }
                    Ok((s, end))
                },
                None => Err(DecodeError::Malformed),
            }
        } else {
            Err(DecodeError::Truncated)
        },
    }
}

fn get_user(b: &[u8], p: usize) -> (r: Result<(User, usize), DecodeError>)
    requires
        p <= b@.len(),
    ensures
        at_view(r) == parse_user(b@, p as int),
        ends_within(r, b@.len() as int),
{
    let (id, k1) = match get_i32(b, p) {
        Err(e) => return Err(e),
        Ok(x) => x,
    };
    let (username, k2) = match get_text(b, k1) {
        Err(e) => return Err(e),
        Ok(x) => x,
    };
    let (karma, k3) = match get_i32(b, k2) {
        Err(e) => return Err(e),
        Ok(x) => x,
    };
    let (streak, k4) = match get_i16(b, k3) {
        Err(e) => return Err(e),
        Ok(x) => x,
    };
    Ok((User { id, username, karma, streak }, k4))
}

fn get_post(b: &[u8], p: usize) -> (r: Result<(Post, usize), DecodeError>)
    requires
        p <= b@.len(),
    ensures
        at_view(r) == parse_post(b@, p as int),
        ends_within(r, b@.len() as int),
{
    let (id, k1) = match get_i32(b, p) {
        Err(e) => return Err(e),
        Ok(x) => x,
    };
    let (content, k2) = match get_text(b, k1) {
        Err(e) => return Err(e),
        Ok(x) => x,
    };
    let (valid, k3) = match get_bool(b, k2) {
        Err(e) => return Err(e),
        Ok(x) => x,
    };
    let (vote, k4) = match get_vote(b, k3) {
        Err(e) => return Err(e),
        Ok(x) => x,
    };
    let (author_id, k5) = match get_i32(b, k4) {
        Err(e) => return Err(e),
        Ok(x) => x,
    };
    Ok((Post { id, content, valid, vote, author_id }, k5))
}

fn get_users(b: &[u8], p: usize) -> (r: Result<(Vec<User>, usize), DecodeError>)
    requires
        p <= b@.len(),
    ensures
        match r {
            Ok((v, q)) => parse_users(b@, p as int) == Ok::<_, DecodeError>((users_view(v@), q as int)),
            Err(e) => parse_users(b@, p as int) == Err::<(Seq<UserV>, int), DecodeError>(e),
        },
        ends_within(r, b@.len() as int),
{
    let (n, q0) = match get_len(b, p) {
        Err(e) => return Err(e),
        Ok(x) => x,
    };
    let mut out: Vec<User> = Vec::new();
    let mut q = q0;
    let mut i: u64 = 0;
    while i < n
        invariant
            q <= b@.len(),
            i <= n,
            parse_users(b@, p as int) == (match parse_user_items(b@, q as int, (n - i) as nat) {
                Ok((rest, r)) => Ok((users_view(out@) + rest, r)),
                Err(e) => Err(e),
            }),
        decreases n - i,
    {
        match get_user(b, q) {
            Err(e) => {
                return Err(e);
            },
            Ok((x, q2)) => {
                let ghost before = out@;
                let ghost m = (n - i) as nat;
                proof {
                    assert(parse_user_items(b@, q as int, m) == (match parse_user_items(b@, q2 as int, (m - 1) as nat) {
                        Err(e) => Err(e),
                        Ok((rest, r)) => Ok((seq![x@] + rest, r)),
                    }));
                }
                out.push(x);
                proof {
                    assert(users_view(out@) =~= users_view(before).push(x@));
                    assert(((n - (i + 1)) as nat) == (m - 1) as nat);
                    assert forall|rest: Seq<UserV>| #![auto] users_view(before) + (seq![x@] + rest) =~= users_view(out@) + rest by {}
                }
                q = q2;
                i = i + 1;
            },
        }
    }
    Ok((out, q))
}

fn get_posts(b: &[u8], p: usize) -> (r: Result<(Vec<Post>, usize), DecodeError>)
    requires
        p <= b@.len(),
    ensures
        match r {
            Ok((v, q)) => parse_posts(b@, p as int) == Ok::<_, DecodeError>((posts_view(v@), q as int)),
            Err(e) => parse_posts(b@, p as int) == Err::<(Seq<PostV>, int), DecodeError>(e),
        },
        ends_within(r, b@.len() as int),
{
    let (n, q0) = match get_len(b, p) {
        Err(e) => return Err(e),
        Ok(x) => x,
    };
    let mut out: Vec<Post> = Vec::new();
    let mut q = q0;
    let mut i: u64 = 0;
    while i < n
        invariant
            q <= b@.len(),
            i <= n,
            parse_posts(b@, p as int) == (match parse_post_items(b@, q as int, (n - i) as nat) {
                Ok((rest, r)) => Ok((posts_view(out@) + rest, r)),
                Err(e) => Err(e),
            }),
        decreases n - i,
    {
        match get_post(b, q) {
            Err(e) => {
                return Err(e);
            },
            Ok((x, q2)) => {
                let ghost before = out@;
                let ghost m = (n - i) as nat;
                proof {
                    assert(parse_post_items(b@, q as int, m) == (match parse_post_items(b@, q2 as int, (m - 1) as nat) {
                        Err(e) => Err(e),
                        Ok((rest, r)) => Ok((seq![x@] + rest, r)),
                    }));
                }
                out.push(x);
                proof {
                    assert(posts_view(out@) =~= posts_view(before).push(x@));
                    assert(((n - (i + 1)) as nat) == (m - 1) as nat);
                    assert forall|rest: Seq<PostV>| #![auto] posts_view(before) + (seq![x@] + rest) =~= posts_view(out@) + rest by {}
                }
                q = q2;
                i = i + 1;
            },
        }
    }
    Ok((out, q))
}

fn get_ids(b: &[u8], p: usize) -> (r: Result<(Vec<i32>, usize), DecodeError>)
    requires
        p <= b@.len(),
    ensures
        match r {
            Ok((v, q)) => parse_ids(b@, p as int) == Ok::<_, DecodeError>((v@, q as int)),
            Err(e) => parse_ids(b@, p as int) == Err::<(Seq<i32>, int), DecodeError>(e),
        },
        ends_within(r, b@.len() as int),
{
    let (n, q0) = match get_len(b, p) {
        Err(e) => return Err(e),
        Ok(x) => x,
    };
    let mut out: Vec<i32> = Vec::new();
    let mut q = q0;
    let mut i: u64 = 0;
    while i < n
        invariant
            q <= b@.len(),
            i <= n,
            parse_ids(b@, p as int) == (match parse_i32_items(b@, q as int, (n - i) as nat) {
                Ok((rest, r)) => Ok((out@ + rest, r)),
                Err(e) => Err(e),
            }),
        decreases n - i,
    {
        match get_i32(b, q) {
            Err(e) => {
                return Err(e);
            },
            Ok((x, q2)) => {
                let ghost before = out@;
                let ghost m = (n - i) as nat;
                proof {
                    assert(parse_i32_items(b@, q as int, m) == (match parse_i32_items(b@, q2 as int, (m - 1) as nat) {
                        Err(e) => Err(e),
                        Ok((rest, r)) => Ok((seq![x] + rest, r)),
                    }));
                }
                out.push(x);
                proof {
                    assert(out@ =~= before.push(x));
                    assert(((n - (i + 1)) as nat) == (m - 1) as nat);
                    assert forall|rest: Seq<i32>| #![auto] before + (seq![x] + rest) =~= out@ + rest by {}
                }
                q = q2;
                i = i + 1;
            },
        }
    }
    Ok((out, q))
}

fn get_request(b: &[u8], tag: u8, p: usize) -> (r: Result<(Request, usize), DecodeError>)
    requires
        p <= b@.len(),
    ensures
        at_view(r) == parse_request(b@, tag, p as int),
        ends_within(r, b@.len() as int),
{
    if tag == 0 || tag == 2 {
        let (username, k1) = match get_text(b, p) {
            Err(e) => return Err(e),
            Ok(x) => x,
        };
        let (password, k2) = match get_text(b, k1) {
            Err(e) => return Err(e),
            Ok(x) => x,
        };
        if tag == 0 {
            Ok((Request::LoginCredentials { username, password }, k2))
        } else {
            Ok((Request::Registration { username, password }, k2))
        }
    } else if tag == 1 || tag == 3 || tag == 4 {
        let (token, k1) = match get_text(b, p) {
            Err(e) => return Err(e),
            Ok(x) => x,
        };
        if tag == 1 {
            Ok((Request::LoginToken { token }, k1))
        } else if tag == 3 {
            Ok((Request::Logout { token }, k1))
        } else {
            Ok((Request::FetchPosts { token }, k1))
        }
    } else if tag == 5 {
        let (token, k1) = match get_text(b, p) {
            Err(e) => return Err(e),
            Ok(x) => x,
        };
        let (content, k2) = match get_text(b, k1) {
            Err(e) => return Err(e),
            Ok(x) => x,
        };
        Ok((Request::CreatePost { token, content }, k2))
    } else if tag == 6 {
        let (token, k1) = match get_text(b, p) {
            Err(e) => return Err(e),
            Ok(x) => x,
        };
        let (post_id, k2) = match get_i32(b, k1) {
            Err(e) => return Err(e),
            Ok(x) => x,
        };
        let (vote, k3) = match get_vote(b, k2) {
            Err(e) => return Err(e),
            Ok(x) => x,
        };
        Ok((Request::UserVote { token, post_id, vote }, k3))
    } else {
        Err(DecodeError::UnknownVariant { kind: 0, tag })
    }
}

fn get_response(b: &[u8], tag: u8, p: usize) -> (r: Result<(Response, usize), DecodeError>)
    requires
        p <= b@.len(),
    ensures
        at_view(r) == parse_response(b@, tag, p as int),
        ends_within(r, b@.len() as int),
{
    if tag == 1 || tag == 3 || tag == 5 || tag == 7 || tag == 9 {
        let (description, k1) = match get_text(b, p) {
            Err(e) => return Err(e),
            Ok(x) => x,
        };
        let resp = if tag == 1 {
            Response::LoginError { description }
        } else if tag == 3 {
            Response::LogoutError { description }
        } else if tag == 5 {
            Response::FetchPostsError { description }
        } else if tag == 7 {
            Response::CreatePostError { description }
        } else {
            Response::UserVoteError { description }
        };
        Ok((resp, k1))
    } else if tag == 2 {
        Ok((Response::LogoutSuccess, p))
    } else if tag == 0 || tag == 4 || tag == 6 || tag == 8 {
        let (token, k1) = match get_text(b, p) {
            Err(e) => return Err(e),
            Ok(x) => x,
        };
        if tag == 0 {
            let (user, k2) = match get_user(b, k1) {
                Err(e) => return Err(e),
                Ok(x) => x,
            };
            Ok((Response::LoginSuccess { token, user }, k2))
        } else if tag == 4 {
            let (posts, k2) = match get_posts(b, k1) {
                Err(e) => return Err(e),
                Ok(x) => x,
            };
            Ok((Response::FetchPostsSuccess { token, posts }, k2))
        } else if tag == 6 {
            let (post, k2) = match get_post(b, k1) {
                Err(e) => return Err(e),
                Ok(x) => x,
            };
            Ok((Response::CreatePostSuccess { token, post }, k2))
        } else {
            Ok((Response::UserVoteSuccess { token }, k1))
        }
    } else {
        Err(DecodeError::UnknownVariant { kind: 1, tag })
    }
}

fn get_update(b: &[u8], tag: u8, p: usize) -> (r: Result<(Update, usize), DecodeError>)
    requires
        p <= b@.len(),
    ensures
        at_view(r) == parse_update(b@, tag, p as int),
        ends_within(r, b@.len() as int),
{
    if tag == 0 {
        let (post, k1) = match get_post(b, p) {
            Err(e) => return Err(e),
            Ok(x) => x,
        };
        Ok((Update::NewPost { post }, k1))
    } else if tag == 1 {
        let (post_ids, k1) = match get_ids(b, p) {
            Err(e) => return Err(e),
            Ok(x) => x,
        };
        Ok((Update::Invalid { post_ids }, k1))
    } else if tag == 2 {
        let (users, k1) = match get_users(b, p) {
            Err(e) => return Err(e),
            Ok(x) => x,
        };
        Ok((Update::Users { users }, k1))
    } else {
        Err(DecodeError::UnknownVariant { kind: 2, tag })
    }
}

/// Reads one message that spans the whole of `bytes`.
pub fn decode(bytes: &[u8]) -> (r: Result<Message, DecodeError>)
    ensures
        match r {
            Ok(m) => decoding(bytes@) == Ok::<MessageV, DecodeError>(m@),
            Err(e) => decoding(bytes@) == Err::<MessageV, DecodeError>(e),
        },
{
    let (kind, k1) = match get_u8(bytes, 0) {
        Err(e) => return Err(e),
        Ok(x) => x,
    };
    if kind > 2 {
        return Err(DecodeError::UnknownKind { tag: kind });
    }
    let (tag, k2) = match get_u8(bytes, k1) {
        Err(e) => return Err(e),
        Ok(x) => x,
    };
    let (m, k3) = if kind == 0 {
        match get_request(bytes, tag, k2) {
            Err(e) => return Err(e),
            Ok((r, q)) => (Message::Request(r), q),
        }
    } else if kind == 1 {
        match get_response(bytes, tag, k2) {
            Err(e) => return Err(e),
            Ok((r, q)) => (Message::Response(r), q),
        }
    } else {
        match get_update(bytes, tag, k2) {
            Err(e) => return Err(e),
            Ok((u, q)) => (Message::Update(u), q),
        }
    };
    if k3 == bytes.len() {
        Ok(m)
    } else {
        Err(DecodeError::TrailingBytes)
    }
}

/// Tells the family and subject of a message from its two leading bytes,
/// without reading its fields.
pub fn classify(bytes: &[u8]) -> (r: Result<(Kind, WsMessage), DecodeError>)
    ensures
        r == classification(bytes@),
{
    let (kind, k1) = match get_u8(bytes, 0) {
        Err(e) => return Err(e),
        Ok(x) => x,
    };
    if kind > 2 {
        return Err(DecodeError::UnknownKind { tag: kind });
    }
    let (tag, _) = match get_u8(bytes, k1) {
        Err(e) => return Err(e),
        Ok(x) => x,
    };
    let count: u8 = if kind == 0 {
        7
    } else if kind == 1 {
        10
    } else {
        3
    };
    if tag >= count {
        return Err(DecodeError::UnknownVariant { kind, tag });
    }
    let family = if kind == 0 {
        Kind::Request
    } else if kind == 1 {
        Kind::Response
    } else {
        Kind::Update
    };
    let subject = if kind == 2 {
        if tag == 0 {
            WsMessage::NewPost
        } else if tag == 1 {
            WsMessage::InvalidPosts
        } else {
            WsMessage::UpdateUsers
        }
    } else if kind == 0 {
        if tag <= 1 {
            WsMessage::Login
        } else if tag == 2 {
            WsMessage::Registration
        } else if tag == 3 {
            WsMessage::Logout
        } else if tag == 4 {
            WsMessage::FetchPosts
        } else if tag == 5 {
            WsMessage::CreatePost
        } else {
            WsMessage::UserVote
        }
    } else {
        if tag <= 1 {
            WsMessage::Login
        } else if tag <= 3 {
            WsMessage::Logout
        } else if tag <= 5 {
            WsMessage::FetchPosts
        } else if tag <= 7 {
            WsMessage::CreatePost
        } else {
            WsMessage::UserVote
        }
    };
    Ok((family, subject))
}

fn put_request(out: &mut Vec<u8>, r: &Request)
    ensures
        final(out)@ == old(out)@ + seq![0u8, request_tag(r@)] + enc_request_body(r@),
{
    let ghost start = out@;
    put_u8(out, 0);
    match r {
        Request::LoginCredentials { username, password } => {
            put_u8(out, 0);
            put_text(out, username);
            put_text(out, password);
        },
        Request::LoginToken { token } => {
            put_u8(out, 1);
            put_text(out, token);
        },
        Request::Registration { username, password } => {
            put_u8(out, 2);
            put_text(out, username);
            put_text(out, password);
        },
        Request::Logout { token } => {
            put_u8(out, 3);
            put_text(out, token);
        },
        Request::FetchPosts { token } => {
            put_u8(out, 4);
            put_text(out, token);
        },
        Request::CreatePost { token, content } => {
            put_u8(out, 5);
            put_text(out, token);
            put_text(out, content);
        },
        Request::UserVote { token, post_id, vote } => {
            put_u8(out, 6);
            put_text(out, token);
            put_i32(out, *post_id);
            put_vote(out, *vote);
        },
    }
    assert(out@ =~= start + seq![0u8, request_tag(r@)] + enc_request_body(r@));
}

fn put_response(out: &mut Vec<u8>, r: &Response)
    ensures
        final(out)@ == old(out)@ + seq![1u8, response_tag(r@)] + enc_response_body(r@),
{
    let ghost start = out@;
    put_u8(out, 1);
    match r {
        Response::LoginSuccess { token, user } => {
            put_u8(out, 0);
            put_text(out, token);
            put_user(out, user);
        },
        Response::LoginError { description } => {
            put_u8(out, 1);
            put_text(out, description);
        },
        Response::LogoutSuccess => {
            put_u8(out, 2);
        },
        Response::LogoutError { description } => {
            put_u8(out, 3);
            put_text(out, description);
        },
        Response::FetchPostsSuccess { token, posts } => {
            put_u8(out, 4);
            put_text(out, token);
            put_posts(out, posts);
        },
        Response::FetchPostsError { description } => {
            put_u8(out, 5);
            put_text(out, description);
        },
        Response::CreatePostSuccess { token, post } => {
            put_u8(out, 6);
            put_text(out, token);
            put_post(out, post);
        },
        Response::CreatePostError { description } => {
            put_u8(out, 7);
            put_text(out, description);
        },
        Response::UserVoteSuccess { token } => {
            put_u8(out, 8);
            put_text(out, token);
        },
        Response::UserVoteError { description } => {
            put_u8(out, 9);
            put_text(out, description);
        },
    }
    assert(out@ =~= start + seq![1u8, response_tag(r@)] + enc_response_body(r@));
}

fn put_update(out: &mut Vec<u8>, u: &Update)
    ensures
        final(out)@ == old(out)@ + seq![2u8, update_tag(u@)] + enc_update_body(u@),
{
    let ghost start = out@;
    put_u8(out, 2);
    match u {
        Update::NewPost { post } => {
            put_u8(out, 0);
            put_post(out, post);
        },
        Update::Invalid { post_ids } => {
            put_u8(out, 1);
            put_ids(out, post_ids);
        },
        Update::Users { users } => {
            put_u8(out, 2);
            put_users(out, users);
        },
    }
    assert(out@ =~= start + seq![2u8, update_tag(u@)] + enc_update_body(u@));
}

/// The bytes of a message.
pub fn encode(m: &Message) -> (r: Vec<u8>)
    ensures
        r@ == encoding(m@),
{
    let mut out: Vec<u8> = Vec::new();
    match m {
        Message::Request(r) => put_request(&mut out, r),
        Message::Response(r) => put_response(&mut out, r),
        Message::Update(u) => put_update(&mut out, u),
    }
    assert(out@ =~= encoding(m@));
    out
}

/// The bytes of the update that announces newly closed posts.
pub fn encode_invalid_posts(post_ids: &Vec<i32>) -> (r: Vec<u8>)
    ensures
        r@ == encoding(MessageV::Update(UpdateV::Invalid { post_ids: post_ids@ })),
{
    let mut out: Vec<u8> = Vec::new();
    put_u8(&mut out, 2);
    put_u8(&mut out, 1);
    put_ids(&mut out, post_ids);
    assert(out@ =~= encoding(MessageV::Update(UpdateV::Invalid { post_ids: post_ids@ })));
    out
}

/// The bytes of the update that carries changed user records.
pub fn encode_users_update(users: &Vec<User>) -> (r: Vec<u8>)
    ensures
        r@ == encoding(MessageV::Update(UpdateV::Users { users: users_view(users@) })),
{
    let mut out: Vec<u8> = Vec::new();
    put_u8(&mut out, 2);
    put_u8(&mut out, 2);
    put_users(&mut out, users);
    assert(out@ =~= encoding(MessageV::Update(UpdateV::Users { users: users_view(users@) })));
    out
}

/// The bytes of the update that announces a new post.
pub fn encode_new_post(post: &Post) -> (r: Vec<u8>)
    ensures
        r@ == encoding(MessageV::Update(UpdateV::NewPost { post: post@ })),
{
    let mut out: Vec<u8> = Vec::new();
    put_u8(&mut out, 2);
    put_u8(&mut out, 0);
    put_post(&mut out, post);
    assert(out@ =~= encoding(MessageV::Update(UpdateV::NewPost { post: post@ })));
    out
}

} // verus!
