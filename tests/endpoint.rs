use wakkave::codec::{decode, encode, DecodeError};
use wakkave::cookie::{CookieError, CookieService, DEFAULT_DAYS};
use wakkave::endpoint::{
    decode_error_description, error_reply, fetched_posts, new_post_update, post_for_viewer,
    read_request, request_subject, vote_direction, Inbound, Phase, ServerError, Ws,
    created_post_reply, login_reply,
};
use wakkave::models::{Post, Vote};
use wakkave::protocol::{Message, Request, Response, Update, Vote as WireVote, WsMessage};
use wakkave::token::{Token, TOKEN_LIFETIME};

fn post(id: i32, valid: bool) -> Post {
    Post { id, content: format!("post {}", id), valid, created_at: 0, user_id: 3 }
}

#[test]
fn connection_lifecycle() {
    let mut ws = Ws::new();
    assert_eq!(ws.phase(), Phase::Unauthenticated);
    assert!(ws.session_id().is_none());
    assert!(ws.signed_in());
    assert_eq!(ws.phase(), Phase::Authenticated);
    ws.joined("session-1".to_string());
    // a second login on the same connection asks the hub for nothing
    assert!(!ws.signed_in());
    assert_eq!(ws.session_id(), Some("session-1".to_string()));
    assert_eq!(ws.close(), Some("session-1".to_string()));
    assert_eq!(ws.phase(), Phase::Closed);
    assert_eq!(ws.close(), None);
}

#[test]
fn closing_without_a_session() {
    let mut ws = Ws::new();
    assert_eq!(ws.close(), None);
    assert_eq!(ws.phase(), Phase::Closed);
}

#[test]
fn inbound_frames() {
    let frame = encode(&Message::Request(Request::Logout { token: "t".to_string() }));
    match read_request(&frame) {
        Inbound::Request(Request::Logout { token }) => assert_eq!(token, "t"),
        other => panic!("unexpected {:?}", other),
    }
    // a request cut short is answered on its subject
    let cut = &frame[..frame.len() - 1];
    match read_request(cut) {
        Inbound::Reject(WsMessage::Logout, DecodeError::Truncated) => {}
        other => panic!("unexpected {:?}", other),
    }
    // an update where a request was expected is dropped
    let update = encode(&Message::Update(Update::Invalid { post_ids: vec![] }));
    assert!(matches!(read_request(&update), Inbound::Ignore));
    assert!(matches!(read_request(&[9, 9]), Inbound::Ignore));
}

#[test]
fn error_replies_by_subject() {
    match error_reply(WsMessage::Registration, "nope".to_string()) {
        Response::LoginError { description } => assert_eq!(description, "nope"),
        other => panic!("unexpected {:?}", other),
    }
    assert!(matches!(error_reply(WsMessage::Logout, String::new()), Response::LogoutError { .. }));
    assert!(matches!(error_reply(WsMessage::FetchPosts, String::new()), Response::FetchPostsError { .. }));
    assert!(matches!(error_reply(WsMessage::CreatePost, String::new()), Response::CreatePostError { .. }));
    assert!(matches!(error_reply(WsMessage::UserVote, String::new()), Response::UserVoteError { .. }));
}

#[test]
fn vote_directions() {
    assert_eq!(vote_direction(WireVote::Up), Ok(true));
    assert_eq!(vote_direction(WireVote::Down), Ok(false));
    assert_eq!(vote_direction(WireVote::Neutral), Err(ServerError::InvalidVote));
    assert_eq!(ServerError::InvalidVote.description(), "Invalid Vote");
    assert_eq!(ServerError::FindUser.description(), "unable to find user in the database");
    assert_eq!(decode_error_description(DecodeError::Truncated), "message is truncated");
}

#[test]
fn posts_as_the_viewer_sees_them() {
    let p = post_for_viewer(&post(4, true), Some(Vote { post_id: 4, user_id: 1, up: false }));
    assert_eq!((p.id, p.vote, p.author_id, p.content.as_str()), (4, WireVote::Down, 3, "post 4"));
    let rows = vec![
        (post(1, true), Some(Vote { post_id: 1, user_id: 9, up: true })),
        (post(2, true), None),
    ];
    match fetched_posts("renewed".to_string(), &rows) {
        Response::FetchPostsSuccess { token, posts } => {
            assert_eq!(token, "renewed");
            assert_eq!(posts.iter().map(|p| (p.id, p.vote)).collect::<Vec<_>>(), vec![(1, WireVote::Up), (2, WireVote::Neutral)]);
        }
        other => panic!("unexpected {:?}", other),
    }
}

#[test]
fn new_post_announcement() {
    let bytes = new_post_update(&post(12, true));
    match decode(&bytes).unwrap() {
        Message::Update(Update::NewPost { post }) => {
            assert_eq!((post.id, post.vote, post.valid, post.author_id), (12, WireVote::Neutral, true, 3));
            assert_eq!(post.content, "post 12");
        }
        other => panic!("unexpected {:?}", other),
    }
}

#[test]
fn token_claims() {
    let a = Token::new(5, 1000);
    assert_eq!((a.sub, a.iat, a.exp), (5, 1000, 1000 + TOKEN_LIFETIME));
    assert_eq!(a.jti.len(), 36);
    let b = Token::new(5, 1000);
    assert_ne!(a.jti, b.jti);
}

#[test]
fn cookie_assignments() {
    let cookies = CookieService::new();
    assert_eq!(DEFAULT_DAYS, 365);
    assert_eq!(cookies.set("SessionToken", "abc"), "SessionToken=abc;max-age=31536000;path=/");
    assert_eq!(cookies.set_expiring("a", "b", 2), "a=b;max-age=172800;path=/");
    assert_eq!(cookies.set_expiring("a", "b", 0), "a=b;max-age=0;path=/");
    assert_eq!(cookies.remove("SessionToken"), "SessionToken=;max-age=-86400;path=/");
    assert_eq!(cookies.set_expiring("x", "", i32::MIN), "x=;max-age=-185542587187200;path=/");
}

#[test]
fn cookie_lookup() {
    let jar = "theme=dark; SessionToken=abc123; lang=en";
    assert_eq!(CookieService::get(jar, "SessionToken"), Ok("abc123".to_string()));
    assert_eq!(CookieService::get(jar, "theme"), Ok("dark".to_string()));
    assert_eq!(CookieService::get(jar, "lang"), Ok("en".to_string()));
    assert_eq!(CookieService::get(jar, "missing"), Err(CookieError::NotFound));
    assert_eq!(CookieService::get("", "a"), Err(CookieError::NotFound));
    assert_eq!(CookieService::get("a", "a"), Err(CookieError::NotFound));
    assert_eq!(CookieService::get("a=", "a"), Ok(String::new()));
    // the last entry of a name wins
    assert_eq!(CookieService::get("a=1;a=2", "a"), Ok("2".to_string()));
    assert_eq!(CookieService::get("a=1;a", "a"), Ok("1".to_string()));
    assert_eq!(CookieService::get("k=ü; x=y", "k"), Ok("ü".to_string()));
}

#[test]
fn request_subjects() {
    assert_eq!(request_subject(&Request::LoginToken { token: String::new() }), WsMessage::Login);
    assert_eq!(
        request_subject(&Request::Registration { username: String::new(), password: String::new() }),
        WsMessage::Registration
    );
    assert_eq!(
        request_subject(&Request::UserVote { token: String::new(), post_id: 1, vote: WireVote::Up }),
        WsMessage::UserVote
    );
}

#[test]
fn reply_builders() {
    let user = wakkave::protocol::User { id: 1, username: "u".to_string(), karma: 3, streak: 2 };
    match login_reply("tok".to_string(), user) {
        Response::LoginSuccess { token, user } => assert_eq!((token.as_str(), user.id, user.karma), ("tok", 1, 3)),
        other => panic!("unexpected {:?}", other),
    }
    match created_post_reply("t2".to_string(), &post(6, true)) {
        Response::CreatePostSuccess { token, post } => {
            assert_eq!((token.as_str(), post.id, post.vote, post.author_id), ("t2", 6, WireVote::Neutral, 3));
        }
        other => panic!("unexpected {:?}", other),
    }
}

#[test]
fn announcing_a_post_skips_the_creator() {
    let mut ws = Ws::new();
    let (bytes, exclude) = ws.announce_post(&post(8, true));
    assert_eq!(exclude, None);
    assert!(matches!(decode(&bytes).unwrap(), Message::Update(Update::NewPost { .. })));
    ws.signed_in();
    ws.joined("me".to_string());
    let (_, exclude) = ws.announce_post(&post(8, true));
    assert_eq!(exclude, Some("me".to_string()));
}
