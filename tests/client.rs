use wakkave::client::ProtocolService;
use wakkave::codec::{decode, encode, DecodeError};
use wakkave::protocol::{Message, Post, ProtocolError, Request, Response, Update, User, Vote, WsMessage};

fn user() -> User {
    User { id: 3, username: "carol".to_string(), karma: -20, streak: 0 }
}

#[test]
fn written_requests_decode() {
    let service = ProtocolService::new();
    match decode(&service.write_request_user_vote("tok", 7, Vote::Up)).unwrap() {
        Message::Request(Request::UserVote { token, post_id, vote }) => {
            assert_eq!((token.as_str(), post_id, vote), ("tok", 7, Vote::Up));
        }
        other => panic!("unexpected {:?}", other),
    }
    match decode(&service.write_request_login_credentials("n", "p")).unwrap() {
        Message::Request(Request::LoginCredentials { username, password }) => {
            assert_eq!((username.as_str(), password.as_str()), ("n", "p"));
        }
        other => panic!("unexpected {:?}", other),
    }
    match decode(&service.write_request_create_post("t", "hello")).unwrap() {
        Message::Request(Request::CreatePost { token, content }) => {
            assert_eq!((token.as_str(), content.as_str()), ("t", "hello"));
        }
        other => panic!("unexpected {:?}", other),
    }
    assert_eq!(ProtocolService::which_message(&service.write_request_registration("a", "b")), Ok(WsMessage::Registration));
    assert_eq!(ProtocolService::which_message(&service.write_request_logout_token("a")), Ok(WsMessage::Logout));
    assert_eq!(ProtocolService::which_message(&service.write_request_fetch_posts("a")), Ok(WsMessage::FetchPosts));
    assert_eq!(ProtocolService::which_message(&service.write_request_login_token("a")), Ok(WsMessage::Login));
}

#[test]
fn reading_replies() {
    let service = ProtocolService::new();
    let ok = encode(&Message::Response(Response::LoginSuccess { token: "t".to_string(), user: user() }));
    let login = service.read_response_login(&ok).unwrap().unwrap();
    assert_eq!((login.token.as_str(), login.user.id, login.user.karma), ("t", 3, -20));
    let refused = encode(&Message::Response(Response::LoginError { description: "Password is incorrect".to_string() }));
    match service.read_response_login(&refused) {
        Err(ProtocolError::Response { description }) => assert_eq!(description, "Password is incorrect"),
        other => panic!("unexpected {:?}", other),
    }
    // a reply of another subject is not a login reply
    assert!(matches!(service.read_response_login(&refused[..2]), Err(ProtocolError::Decode { error: DecodeError::Truncated })));
    assert!(matches!(service.read_response_logout(&ok), Ok(None)));
    let bye = encode(&Message::Response(Response::LogoutSuccess));
    assert!(matches!(service.read_response_logout(&bye), Ok(Some(()))));
}

#[test]
fn reading_posts_and_votes() {
    let service = ProtocolService::new();
    let p = Post { id: 1, content: "c".to_string(), valid: true, vote: Vote::Down, author_id: 2 };
    let fetched = encode(&Message::Response(Response::FetchPostsSuccess { token: "t".to_string(), posts: vec![p] }));
    let f = service.read_response_fetch_posts(&fetched).unwrap().unwrap();
    assert_eq!((f.token.as_str(), f.posts.len(), f.posts[0].vote), ("t", 1, Vote::Down));
    let created = encode(&Message::Response(Response::CreatePostSuccess {
        token: "t2".to_string(),
        post: Post { id: 5, content: "new".to_string(), valid: true, vote: Vote::Neutral, author_id: 2 },
    }));
    let c = service.read_response_create_post(&created).unwrap().unwrap();
    assert_eq!((c.token.as_str(), c.post.id), ("t2", 5));
    let voted = encode(&Message::Response(Response::UserVoteSuccess { token: "t3".to_string() }));
    assert_eq!(service.read_request_user_vote(&voted).unwrap(), Some("t3".to_string()));
    let refused = encode(&Message::Response(Response::UserVoteError { description: "Invalid Vote".to_string() }));
    assert!(matches!(service.read_request_user_vote(&refused), Err(ProtocolError::Response { .. })));
}

#[test]
fn reading_updates() {
    let service = ProtocolService::new();
    let invalid = encode(&Message::Update(Update::Invalid { post_ids: vec![4, 5] }));
    assert_eq!(service.read_update_invalid(&invalid).unwrap(), Some(vec![4, 5]));
    assert!(service.read_update_users(&invalid).unwrap().is_none());
    let users = encode(&Message::Update(Update::Users { users: vec![user()] }));
    let u = service.read_update_users(&users).unwrap().unwrap();
    assert_eq!(u.users[0].username, "carol");
    let new_post = encode(&Message::Update(Update::NewPost {
        post: Post { id: 9, content: "x".to_string(), valid: true, vote: Vote::Neutral, author_id: 1 },
    }));
    assert_eq!(service.read_update_new_post(&new_post).unwrap().unwrap().id, 9);
    assert!(matches!(service.read_update_new_post(&[5]), Err(ProtocolError::Decode { error: DecodeError::UnknownKind { tag: 5 } })));
}
