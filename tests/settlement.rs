use wakkave::codec::{decode, encode, encode_invalid_posts, encode_users_update};
use wakkave::endpoint::{read_request, vote_direction, Inbound};
use wakkave::models::{Post, Vote};
use wakkave::protocol::{Message, Request, Update, User, Vote as WireVote};
use wakkave::settlement::{expire_stale, group_votes, is_stale, settle, tally, try_settle, Verdict};

const NOW: i64 = 1_000_000;

fn user(id: i32, karma: i32, streak: i16) -> User {
    User { id, username: format!("user{}", id), karma, streak }
}

fn post(id: i32, created_at: i64) -> Post {
    Post { id, content: format!("post {}", id), valid: true, created_at, user_id: 100 }
}

fn vote(post_id: i32, user_id: i32, up: bool) -> Vote {
    Vote { post_id, user_id, up }
}

fn find(users: &[User], id: i32) -> Option<&User> {
    users.iter().find(|u| u.id == id)
}

#[test]
fn staleness_window() {
    assert!(is_stale(&post(1, NOW - 3661), NOW));
    assert!(!is_stale(&post(1, NOW - 3660), NOW));
    assert!(!is_stale(&post(1, NOW), NOW));
    let mut closed = post(1, 0);
    closed.valid = false;
    assert!(!is_stale(&closed, NOW));
    assert!(!is_stale(&post(1, i64::MAX), i64::MIN));
    assert!(is_stale(&post(1, i64::MIN), i64::MAX));
}

#[test]
fn expire_closes_only_stale_posts() {
    let mut posts = vec![post(1, NOW - 4000), post(2, NOW - 10), post(3, NOW - 7200)];
    let closed = expire_stale(&mut posts, NOW);
    assert_eq!(closed, vec![1, 3]);
    assert_eq!(posts.iter().map(|p| p.valid).collect::<Vec<_>>(), vec![false, true, false]);
    // closing again finds nothing: a closed post stays closed
    assert_eq!(expire_stale(&mut posts, NOW + 100_000), vec![2]);
    assert!(posts.iter().all(|p| !p.valid));
}

#[test]
fn tally_verdicts() {
    assert_eq!(tally(&vec![]), Verdict::Tie);
    assert_eq!(tally(&vec![vote(1, 1, true), vote(1, 2, false)]), Verdict::Tie);
    assert_eq!(tally(&vec![vote(1, 1, true)]), Verdict::UpWins);
    assert_eq!(tally(&vec![vote(1, 1, false), vote(1, 2, false), vote(1, 3, true)]), Verdict::DownWins);
}

#[test]
fn majority_wins_three_to_one() {
    let mut posts = vec![post(5, NOW - 4000)];
    let closed = expire_stale(&mut posts, NOW);
    assert_eq!(closed, vec![5]);
    assert!(!posts[0].valid);
    let votes = vec![vote(5, 1, true), vote(5, 2, true), vote(5, 3, true), vote(5, 4, false)];
    let groups = group_votes(&closed, &votes);
    let users = vec![user(1, 0, 0), user(2, 5, 2), user(3, -20, 7), user(4, 50, 3), user(9, 1, 1)];
    let out = settle(&users, &groups);
    assert_eq!(out.iter().map(|u| u.id).collect::<Vec<_>>(), vec![1, 2, 3, 4]);
    assert_eq!((find(&out, 1).unwrap().karma, find(&out, 1).unwrap().streak), (10, 1));
    assert_eq!((find(&out, 2).unwrap().karma, find(&out, 2).unwrap().streak), (15, 3));
    assert_eq!((find(&out, 3).unwrap().karma, find(&out, 3).unwrap().streak), (-10, 8));
    assert_eq!((find(&out, 4).unwrap().karma, find(&out, 4).unwrap().streak), (40, 0));
}

#[test]
fn tied_posts_change_nobody() {
    let mut posts = vec![post(1, NOW - 5000), post(2, NOW - 5000)];
    let closed = expire_stale(&mut posts, NOW);
    assert_eq!(closed, vec![1, 2]);
    assert!(posts.iter().all(|p| !p.valid));
    let votes = vec![vote(1, 1, true), vote(1, 2, true), vote(1, 3, false), vote(1, 4, false)];
    let groups = group_votes(&closed, &votes);
    assert_eq!(groups[1].len(), 0);
    let users = vec![user(1, 3, 2), user(2, 3, 2), user(3, 3, 2), user(4, 3, 2)];
    let out = settle(&users, &groups);
    assert!(out.is_empty());
}

#[test]
fn two_wins_in_one_cycle_count_twice() {
    let closed = vec![10, 11];
    let votes = vec![
        vote(10, 1, true),
        vote(10, 6, true),
        vote(10, 2, false),
        vote(11, 3, false),
        vote(11, 1, false),
        vote(11, 4, false),
        vote(11, 5, true),
    ];
    let groups = group_votes(&closed, &votes);
    let users = vec![user(5, 0, 4), user(4, 0, 0), user(3, 0, 0), user(2, 0, 1), user(1, 100, 2)];
    let out = settle(&users, &groups);
    assert_eq!(out.iter().map(|u| u.id).collect::<Vec<_>>(), vec![1, 2, 3, 4, 5]);
    let winner = find(&out, 1).unwrap();
    assert_eq!((winner.karma, winner.streak), (120, 4));
    assert_eq!(out.iter().filter(|u| u.id == 1).count(), 1);
    assert_eq!((find(&out, 5).unwrap().karma, find(&out, 5).unwrap().streak), (-10, 0));
    assert_eq!((find(&out, 2).unwrap().karma, find(&out, 2).unwrap().streak), (-10, 0));
}

#[test]
fn loss_then_win_resets_then_counts() {
    let closed = vec![1, 2];
    let votes = vec![vote(1, 7, false), vote(1, 8, true), vote(1, 9, true), vote(2, 7, true)];
    let groups = group_votes(&closed, &votes);
    let out = settle(&vec![user(7, 0, 5)], &groups);
    assert_eq!((out[0].karma, out[0].streak), (0, 1));
}

#[test]
fn down_vote_on_losing_side_end_to_end() {
    // the client asks to vote down on post 7
    let request = Message::Request(Request::UserVote {
        token: "token".to_string(),
        post_id: 7,
        vote: WireVote::Down,
    });
    let frame = encode(&request);
    let (post_id, up) = match read_request(&frame) {
        Inbound::Request(Request::UserVote { post_id, vote, .. }) => (post_id, vote_direction(vote).unwrap()),
        other => panic!("unexpected {:?}", other),
    };
    let voter = 42;
    let votes = vec![vote(post_id, voter, up), vote(7, 1, true), vote(7, 2, true)];
    // the engine later closes post 7
    let mut posts = vec![post(7, NOW - 3700)];
    let closed = expire_stale(&mut posts, NOW);
    assert_eq!(closed, vec![7]);
    let groups = group_votes(&closed, &votes);
    let before = user(voter, 35, 6);
    let out = settle(&vec![user(1, 0, 0), before, user(2, 0, 0)], &groups);
    // both updates go out; the users update carries the voter
    let invalid = decode(&encode_invalid_posts(&closed)).unwrap();
    match invalid {
        Message::Update(Update::Invalid { post_ids }) => assert_eq!(post_ids, vec![7]),
        other => panic!("unexpected {:?}", other),
    }
    match decode(&encode_users_update(&out)).unwrap() {
        Message::Update(Update::Users { users }) => {
            let v = find(&users, voter).unwrap();
            assert_eq!(v.streak, 0);
            assert_eq!(v.karma, 35 - 10);
            assert_eq!(users.iter().filter(|u| u.id == voter).count(), 1);
        }
        other => panic!("unexpected {:?}", other),
    }
}

#[test]
fn try_settle_refuses_what_settle_cannot_take() {
    let groups = group_votes(&vec![1], &vec![vote(1, 1, true)]);
    // the same user twice in the snapshot
    assert!(try_settle(&vec![user(1, 0, 0), user(1, 5, 0)], &groups).is_none());
    // a karma with no room left for a win
    assert!(try_settle(&vec![user(1, i32::MAX - 9, 0)], &groups).is_none());
    // a streak with no room left for a win
    assert!(try_settle(&vec![user(1, 0, i16::MAX)], &groups).is_none());
    // right at the edge it settles
    let out = try_settle(&vec![user(1, i32::MAX - 10, i16::MAX - 1)], &groups).unwrap();
    assert_eq!((out[0].karma, out[0].streak), (i32::MAX, i16::MAX));
}

#[test]
fn bystanders_never_block_a_cycle() {
    let groups = group_votes(&vec![1], &vec![vote(1, 1, true)]);
    // user 2 voted on nothing closed: its extreme standing is no obstacle
    let out = try_settle(&vec![user(1, 0, 0), user(2, i32::MAX, -3)], &groups).unwrap();
    assert_eq!(out.iter().map(|u| u.id).collect::<Vec<_>>(), vec![1]);
    // a negative streak is reset by a loss or counted up from nothing
    let groups = group_votes(&vec![1], &vec![vote(1, 1, true), vote(1, 2, false), vote(1, 3, true)]);
    let out = try_settle(&vec![user(1, 0, -4), user(2, 0, -4)], &groups).unwrap();
    assert_eq!((out[0].karma, out[0].streak), (10, -3));
    assert_eq!((out[1].karma, out[1].streak), (-10, 0));
}
