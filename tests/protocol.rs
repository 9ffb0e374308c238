use wakkave::client::ProtocolService;
use wakkave::codec::{classify, decode, encode, DecodeError};
use wakkave::protocol::{Kind, Message, Post, Request, Response, Update, User, Vote, WsMessage};

fn post(id: i32, content: &str, valid: bool, vote: Vote, author_id: i32) -> Post {
    Post { id, content: content.to_string(), valid, vote, author_id }
}

fn user(id: i32, name: &str, karma: i32, streak: i16) -> User {
    User { id, username: name.to_string(), karma, streak }
}

fn round_trip(m: Message) {
    let bytes = encode(&m);
    let back = decode(&bytes).expect("an encoded message decodes");
    assert_eq!(format!("{:?}", back), format!("{:?}", m));
}

#[test]
fn message_type() {
    let m = Message::Update(Update::NewPost { post: post(2, "Hello from steve!", true, Vote::Neutral, 2) });
    let data = encode(&m);
    assert_eq!(WsMessage::NewPost, ProtocolService::which_message(&data).unwrap());
}

#[test]
fn message_type_2() {
    let invalid: Vec<i32> = (0..1000).collect();
    let m = Message::Update(Update::Invalid { post_ids: invalid });
    let data = encode(&m);
    assert_eq!(WsMessage::InvalidPosts, ProtocolService::which_message(&data).unwrap());
}

#[test]
fn message_type_3() {
    let m = Message::Response(Response::CreatePostSuccess {
        token: "new_token".to_string(),
        post: post(2, "&post.content", true, Vote::Neutral, 1),
    });
    let data = encode(&m);
    assert_eq!(WsMessage::CreatePost, ProtocolService::which_message(&data).unwrap());
}

#[test]
fn requests_round_trip() {
    round_trip(Message::Request(Request::LoginCredentials {
        username: "alice".to_string(),
        password: "pw".to_string(),
    }));
    round_trip(Message::Request(Request::LoginToken { token: "t".to_string() }));
    round_trip(Message::Request(Request::Registration {
        username: String::new(),
        password: String::new(),
    }));
    round_trip(Message::Request(Request::Logout { token: "tok".to_string() }));
    round_trip(Message::Request(Request::FetchPosts { token: "tok".to_string() }));
    round_trip(Message::Request(Request::CreatePost {
        token: "tok".to_string(),
        content: "héllo wörld ✓ 🎉".to_string(),
    }));
    round_trip(Message::Request(Request::UserVote {
        token: "tok".to_string(),
        post_id: -7,
        vote: Vote::Down,
    }));
}

#[test]
fn responses_round_trip() {
    round_trip(Message::Response(Response::LoginSuccess {
        token: "tok".to_string(),
        user: user(i32::MAX, "bob", i32::MIN, i16::MAX),
    }));
    round_trip(Message::Response(Response::LoginError { description: "bad".to_string() }));
    round_trip(Message::Response(Response::LogoutSuccess));
    round_trip(Message::Response(Response::LogoutError { description: String::new() }));
    round_trip(Message::Response(Response::FetchPostsSuccess { token: "t".to_string(), posts: vec![] }));
    round_trip(Message::Response(Response::FetchPostsSuccess {
        token: "t".to_string(),
        posts: vec![post(1, "a", true, Vote::Up, 3), post(2, "", false, Vote::Down, -1)],
    }));
    round_trip(Message::Response(Response::FetchPostsError { description: "x".to_string() }));
    round_trip(Message::Response(Response::CreatePostSuccess {
        token: "t".to_string(),
        post: post(9, "new", true, Vote::Neutral, 4),
    }));
    round_trip(Message::Response(Response::CreatePostError { description: "x".to_string() }));
    round_trip(Message::Response(Response::UserVoteSuccess { token: "t".to_string() }));
    round_trip(Message::Response(Response::UserVoteError { description: "x".to_string() }));
}

#[test]
fn updates_round_trip() {
    round_trip(Message::Update(Update::NewPost { post: post(1, "p", true, Vote::Neutral, 2) }));
    round_trip(Message::Update(Update::Invalid { post_ids: vec![] }));
    round_trip(Message::Update(Update::Invalid { post_ids: vec![1, -2, i32::MIN] }));
    round_trip(Message::Update(Update::Users { users: vec![] }));
    round_trip(Message::Update(Update::Users {
        users: vec![user(1, "a", 10, 1), user(2, "ß", -10, 0)],
    }));
}

#[test]
fn exact_bytes_of_a_logout_request() {
    let m = Message::Request(Request::Logout { token: "ab".to_string() });
    assert_eq!(encode(&m), vec![0, 3, 2, 0, 0, 0, 0, 0, 0, 0, b'a', b'b']);
}

#[test]
fn exact_bytes_of_an_invalid_update() {
    let m = Message::Update(Update::Invalid { post_ids: vec![1, -1] });
    assert_eq!(
        encode(&m),
        vec![2, 1, 2, 0, 0, 0, 0, 0, 0, 0, 1, 0, 0, 0, 255, 255, 255, 255]
    );
}

#[test]
fn classify_every_family() {
    let cases: Vec<(Message, Kind, WsMessage)> = vec![
        (Message::Request(Request::LoginToken { token: "t".to_string() }), Kind::Request, WsMessage::Login),
        (
            Message::Request(Request::Registration { username: "u".to_string(), password: "p".to_string() }),
            Kind::Request,
            WsMessage::Registration,
        ),
        (Message::Request(Request::FetchPosts { token: "t".to_string() }), Kind::Request, WsMessage::FetchPosts),
        (Message::Response(Response::LogoutSuccess), Kind::Response, WsMessage::Logout),
        (Message::Response(Response::UserVoteError { description: "e".to_string() }), Kind::Response, WsMessage::UserVote),
        (Message::Update(Update::Users { users: vec![] }), Kind::Update, WsMessage::UpdateUsers),
    ];
    for (m, kind, subject) in cases {
        assert_eq!(classify(&encode(&m)), Ok((kind, subject)));
    }
}

#[test]
fn decode_errors() {
    assert_eq!(decode(&[]).unwrap_err(), DecodeError::Truncated);
    assert_eq!(decode(&[0]).unwrap_err(), DecodeError::Truncated);
    assert_eq!(decode(&[7, 0]).unwrap_err(), DecodeError::UnknownKind { tag: 7 });
    assert_eq!(decode(&[0, 9]).unwrap_err(), DecodeError::UnknownVariant { kind: 0, tag: 9 });
    assert_eq!(decode(&[2, 3]).unwrap_err(), DecodeError::UnknownVariant { kind: 2, tag: 3 });
    assert_eq!(decode(&[1, 2, 0]).unwrap_err(), DecodeError::TrailingBytes);
    // a text announcing more bytes than there are
    assert_eq!(decode(&[0, 3, 5, 0, 0, 0, 0, 0, 0, 0, b'a']).unwrap_err(), DecodeError::Truncated);
    // a text that is not UTF-8
    assert_eq!(decode(&[0, 3, 1, 0, 0, 0, 0, 0, 0, 0, 0xff]).unwrap_err(), DecodeError::Malformed);
    // a vote byte out of range
    let mut bytes = encode(&Message::Request(Request::UserVote {
        token: String::new(),
        post_id: 1,
        vote: Vote::Up,
    }));
    let last = bytes.len() - 1;
    bytes[last] = 3;
    assert_eq!(decode(&bytes).unwrap_err(), DecodeError::Malformed);
    // a list longer than the bytes that follow
    assert_eq!(decode(&[2, 1, 1, 0, 0, 0, 0, 0, 0, 0, 1, 0]).unwrap_err(), DecodeError::Truncated);
}

#[test]
fn classify_errors() {
    assert_eq!(classify(&[]), Err(DecodeError::Truncated));
    assert_eq!(classify(&[1]), Err(DecodeError::Truncated));
    assert_eq!(classify(&[3, 0]), Err(DecodeError::UnknownKind { tag: 3 }));
    assert_eq!(classify(&[1, 10]), Err(DecodeError::UnknownVariant { kind: 1, tag: 10 }));
    // classify reads only the two leading bytes
    assert_eq!(classify(&[2, 0, 9, 9]), Ok((Kind::Update, WsMessage::NewPost)));
}

#[test]
fn non_ascii_text_survives() {
    let m = Message::Request(Request::CreatePost {
        token: String::new(),
        content: "日本語のテキスト".to_string(),
    });
    match decode(&encode(&m)).unwrap() {
        Message::Request(Request::CreatePost { content, .. }) => assert_eq!(content, "日本語のテキスト"),
        other => panic!("unexpected {:?}", other),
    }
}

#[test]
fn which_message_rejects_what_is_no_message() {
    let whole = encode(&Message::Response(Response::LoginError { description: "x".to_string() }));
    assert_eq!(ProtocolService::which_message(&whole), Ok(WsMessage::Login));
    // the two leading bytes of a login reply without its body
    assert_eq!(ProtocolService::which_message(&whole[..2]), Err(DecodeError::Truncated));
    let mut longer = whole.clone();
    longer.push(0);
    assert_eq!(ProtocolService::which_message(&longer), Err(DecodeError::TrailingBytes));
    assert_eq!(ProtocolService::which_message(&[1, 42]), Err(DecodeError::UnknownVariant { kind: 1, tag: 42 }));
    assert_eq!(ProtocolService::which_message(&[]), Err(DecodeError::Truncated));
}
