//! The periodic settlement: stale posts are closed, the majority side of
//! each closed post gains karma and the minority side loses it.

use vstd::prelude::*;
use crate::models::{Post, PostRow, Vote};
use crate::protocol::{User, UserV, users_view};

verus! {

/// A post is closed once it is older than this many seconds.
pub const STALE_AFTER_SECS: i64 = 3660;

/// Karma gained by each winner and lost by each loser of a closed post.
pub const KARMA_STEP: i32 = 10;

/// The outcome of the votes on one post.
#[derive(Clone, Copy, Debug, PartialEq, Eq, Structural)]
pub enum Verdict {
    UpWins,
    DownWins,
    Tie,
}

pub open spec fn count_up(votes: Seq<Vote>) -> nat
    decreases votes.len(),
{
    if votes.len() == 0 {
        0
    } else {
        count_up(votes.drop_last()) + if votes.last().up {
            1nat
        } else {
            0nat
        }
    }
}

pub open spec fn count_down(votes: Seq<Vote>) -> nat
    decreases votes.len(),
{
    if votes.len() == 0 {
        0
    } else {
        count_down(votes.drop_last()) + if votes.last().up {
            0nat
        } else {
            1nat
        }
    }
}

pub open spec fn verdict(votes: Seq<Vote>) -> Verdict {
    if count_up(votes) > count_down(votes) {
        Verdict::UpWins
    } else if count_down(votes) > count_up(votes) {
        Verdict::DownWins
    } else {
        Verdict::Tie
    }
}

/// `user` voted `up` (or down) on the post with these votes.
pub open spec fn voted(votes: Seq<Vote>, user: i32, up: bool) -> bool {
    exists|j: int| 0 <= j < votes.len() && votes[j].user_id == user && votes[j].up == up
}

/// `user` is on the majority side of the post.
pub open spec fn wins(votes: Seq<Vote>, user: i32) -> bool {
    match verdict(votes) {
        Verdict::UpWins => voted(votes, user, true),
        Verdict::DownWins => voted(votes, user, false),
        Verdict::Tie => false,
    }
}

/// `user` is on the minority side of the post.
pub open spec fn loses(votes: Seq<Vote>, user: i32) -> bool {
    match verdict(votes) {
        Verdict::UpWins => voted(votes, user, false),
        Verdict::DownWins => voted(votes, user, true),
        Verdict::Tie => false,
    }
}

/// Karma after the closed posts, taken in order: minus the step for each
/// loss, plus the step for each win.
pub open spec fn final_karma(karma: int, user: i32, posts: Seq<Seq<Vote>>) -> int
    decreases posts.len(),
{
    if posts.len() == 0 {
        karma
    } else {
        let k = final_karma(karma, user, posts.drop_last());
        let k1 = if loses(posts.last(), user) {
            k - KARMA_STEP
        } else {
            k
        };
        if wins(posts.last(), user) {
            k1 + KARMA_STEP
        } else {
            k1
        }
    }
}

/// Streak after the closed posts, taken in order: a loss resets it to zero,
/// a win adds one.
pub open spec fn final_streak(streak: int, user: i32, posts: Seq<Seq<Vote>>) -> int
    decreases posts.len(),
{
    if posts.len() == 0 {
        streak
    } else {
        let s = final_streak(streak, user, posts.drop_last());
        let s1 = if loses(posts.last(), user) {
            0
        } else {
            s
        };
        if wins(posts.last(), user) {
            s1 + 1
        } else {
            s1
        }
    }
}

/// `user` won or lost on at least one of the closed posts.
pub open spec fn affected(user: i32, posts: Seq<Seq<Vote>>) -> bool {
    exists|i: int| 0 <= i < posts.len() && (wins(posts[i], user) || loses(posts[i], user))
}

/// The user record after the closed posts.
pub open spec fn settled(u: UserV, posts: Seq<Seq<Vote>>) -> UserV {
    UserV {
        karma: final_karma(u.karma as int, u.id, posts) as i32,
        streak: final_streak(u.streak as int, u.id, posts) as i16,
        ..u
    }
}

/// The number of closed posts on which `user` won or lost.
pub open spec fn decided(user: i32, posts: Seq<Seq<Vote>>) -> nat
    decreases posts.len(),
{
    if posts.len() == 0 {
        0
    } else {
        decided(user, posts.drop_last()) + if wins(posts.last(), user) || loses(
            posts.last(),
            user,
        ) {
            1nat
        } else {
            0nat
        }
    }
}

/// The karma and streak of `u` stay within their types over `n` decided
/// posts, whatever their outcome.
pub open spec fn has_room(u: UserV, n: nat) -> bool {
    &&& i32::MIN + KARMA_STEP * n <= u.karma
    &&& u.karma + KARMA_STEP * n <= i32::MAX
    &&& (if u.streak < 0 {
        0
    } else {
        u.streak as int
    }) + n <= i16::MAX
}

/// The standing of `u` stays within its types over the posts it won or
/// lost on; a user with no decided post always has room.
pub open spec fn room_for_posts(u: UserV, posts: Seq<Seq<Vote>>) -> bool {
    has_room(u, decided(u.id, posts))
}

pub open spec fn groups_view(groups: Seq<Vec<Vote>>) -> Seq<Seq<Vote>> {
    groups.map_values(|g: Vec<Vote>| g@)
}

/// The post is still open and older than the staleness window at `now`.
pub open spec fn stale(p: PostRow, now: i64) -> bool {
    p.valid && p.created_at + STALE_AFTER_SECS < now
}

/// The ids of the posts that are stale at `now`, in order.
pub open spec fn stale_ids(posts: Seq<PostRow>, now: i64) -> Seq<i32>
    decreases posts.len(),
{
    if posts.len() == 0 {
        seq![]
    } else {
        let rest = stale_ids(posts.drop_last(), now);
        if stale(posts.last(), now) {
            rest.push(posts.last().id)
        } else {
            rest
        }
    }
}

pub open spec fn votes_on(votes: Seq<Vote>, post_id: i32) -> Seq<Vote> {
    votes.filter(|v: Vote| v.post_id == post_id)
}

/// Whether `post` is stale at `now`.
pub fn is_stale(post: &Post, now: i64) -> (r: bool)
    ensures
        r == stale(post@, now),
{
    post.valid && (post.created_at as i128) + (STALE_AFTER_SECS as i128) < (now as i128)
}

/// Closes every stale post and returns the ids of those closed, in order.
/// A closed post never opens again.
pub fn expire_stale(posts: &mut Vec<Post>, now: i64) -> (r: Vec<i32>)
    ensures
        final(posts)@.len() == old(posts)@.len(),
        forall|i: int|
            #![trigger final(posts)@[i]]
            0 <= i < old(posts)@.len() ==> final(posts)@[i]@ == (PostRow {
                valid: old(posts)@[i]@.valid && !stale(old(posts)@[i]@, now),
                ..old(posts)@[i]@
            }),
        r@ == stale_ids(old(posts)@.map_values(|p: Post| p@), now),
{
    let ghost rows = old(posts)@.map_values(|p: Post| p@);
    let mut r: Vec<i32> = Vec::new();
    let mut i: usize = 0;
    while i < posts.len()
        invariant
            i <= posts@.len(),
            posts@.len() == old(posts)@.len(),
            rows == old(posts)@.map_values(|p: Post| p@),
            forall|j: int|
                #![trigger posts@[j]]
                0 <= j < i ==> posts@[j]@ == (PostRow {
                    valid: old(posts)@[j]@.valid && !stale(old(posts)@[j]@, now),
                    ..old(posts)@[j]@
                }),
            forall|j: int| i <= j < posts@.len() ==> #[trigger] posts@[j] == old(posts)@[j],
            r@ == stale_ids(rows.take(i as int), now),
        decreases posts@.len() - i,
    {
        proof {
            assert(rows.take(i + 1).drop_last() =~= rows.take(i as int));
            assert(rows.take(i + 1).last() == old(posts)@[i as int]@);
        }
        if is_stale(&posts[i], now) {
            r.push(posts[i].id);
            posts[i].valid = false;
        }
        i += 1;
    }
    assert(rows.take(i as int) =~= rows);
    r
}

/// The votes on each of the posts `post_ids`, in the same order.
pub fn group_votes(post_ids: &Vec<i32>, votes: &Vec<Vote>) -> (r: Vec<Vec<Vote>>)
    ensures
        r@.len() == post_ids@.len(),
        forall|i: int|
            #![trigger r@[i]]
            0 <= i < post_ids@.len() ==> r@[i]@ == votes_on(votes@, post_ids@[i]),
{
    let mut r: Vec<Vec<Vote>> = Vec::new();
    let mut i: usize = 0;
    while i < post_ids.len()
        invariant
            i <= post_ids@.len(),
            r@.len() == i,
            forall|k: int| #![trigger r@[k]] 0 <= k < i ==> r@[k]@ == votes_on(votes@, post_ids@[k]),
        decreases post_ids@.len() - i,
    {
        let id = post_ids[i];
        let ghost keep = |v: Vote| v.post_id == id;
        let mut g: Vec<Vote> = Vec::new();
        let mut j: usize = 0;
        while j < votes.len()
            invariant
                j <= votes@.len(),
                keep == (|v: Vote| v.post_id == id),
                g@ == votes@.take(j as int).filter(keep),
            decreases votes@.len() - j,
        {
            proof {
                reveal(Seq::filter);
                assert(votes@.take(j + 1).drop_last() =~= votes@.take(j as int));
            }
            if votes[j].post_id == id {
                g.push(votes[j]);
            }
            j += 1;
        }
        assert(votes@.take(j as int) =~= votes@);
        r.push(g);
        i += 1;
    }
    r
}

/// The verdict of the votes on one post.
pub fn tally(votes: &Vec<Vote>) -> (r: Verdict)
    ensures
        r == verdict(votes@),
{
    let mut up: usize = 0;
    let mut down: usize = 0;
    let mut i: usize = 0;
    while i < votes.len()
        invariant
            i <= votes@.len(),
            up == count_up(votes@.take(i as int)),
            down == count_down(votes@.take(i as int)),
            up + down == i,
        decreases votes@.len() - i,
    {
        proof {
            assert(votes@.take(i + 1).drop_last() =~= votes@.take(i as int));
        }
        if votes[i].up {
            up += 1;
        } else {
            down += 1;
        }
        i += 1;
    }
    assert(votes@.take(i as int) =~= votes@);
    if up > down {
        Verdict::UpWins
    } else if down > up {
        Verdict::DownWins
    } else {
        Verdict::Tie
    }
}

fn has_vote(votes: &Vec<Vote>, user: i32, up: bool) -> (r: bool)
    ensures
        r == voted(votes@, user, up),
{
    let mut i: usize = 0;
    while i < votes.len()
        invariant
            i <= votes@.len(),
            forall|j: int| 0 <= j < i ==> !(votes@[j].user_id == user && votes@[j].up == up),
        decreases votes@.len() - i,
    {
        if votes[i].user_id == user && votes[i].up == up {
            return true;
        }
        i += 1;
    }
    false
}

/// `x` is the settled record of one of the first `n` users of the snapshot,
/// one who won or lost.
pub open spec fn settled_from(x: UserV, users: Seq<User>, n: int, posts: Seq<Seq<Vote>>) -> bool {
    exists|b: int| 0 <= b < n && affected(users[b].id, posts) && x == settled(users[b]@, posts)
}

/// Ids strictly increase along `s`.
pub open spec fn sorted_by_id(s: Seq<UserV>) -> bool {
    forall|a: int, b: int| 0 <= a < b < s.len() ==> s[a].id < s[b].id
}

pub open spec fn distinct_ids(s: Seq<UserV>) -> bool {
    forall|a: int, b: int| 0 <= a < b < s.len() ==> s[a].id != s[b].id
}

proof fn lemma_bounds(karma: int, streak: int, user: i32, posts: Seq<Seq<Vote>>)
    ensures
        karma - KARMA_STEP * decided(user, posts) <= final_karma(karma, user, posts) <= karma
            + KARMA_STEP * decided(user, posts),
        (if streak < 0 {
            streak
        } else {
            0
        }) <= final_streak(streak, user, posts) <= (if streak < 0 {
            0
        } else {
            streak
        }) + decided(user, posts),
    decreases posts.len(),
{
    if posts.len() > 0 {
        lemma_bounds(karma, streak, user, posts.drop_last());
    }
}

proof fn lemma_decided_prefix(user: i32, posts: Seq<Seq<Vote>>, i: int)
    requires
        0 <= i <= posts.len(),
    ensures
        decided(user, posts.take(i)) <= decided(user, posts),
    decreases posts.len(),
{
    if i == posts.len() {
        assert(posts.take(i) =~= posts);
    } else {
        assert(posts.take(i) =~= posts.drop_last().take(i));
        lemma_decided_prefix(user, posts.drop_last(), i);
    }
}

fn verdicts_of(groups: &Vec<Vec<Vote>>) -> (r: Vec<Verdict>)
    ensures
        r@.len() == groups@.len(),
        forall|k: int| 0 <= k < groups@.len() ==> #[trigger] r@[k] == verdict(groups@[k]@),
{
    let mut verdicts: Vec<Verdict> = Vec::new();
    let mut i: usize = 0;
    while i < groups.len()
        invariant
            i <= groups@.len(),
            verdicts@.len() == i,
            forall|k: int| 0 <= k < i ==> #[trigger] verdicts@[k] == verdict(groups@[k]@),
        decreases groups@.len() - i,
    {
        verdicts.push(tally(&groups[i]));
        i += 1;
    }
    verdicts
}

/// Whether `user` won and whether it lost on the post with votes `g`.
fn outcome(g: &Vec<Vote>, v: Verdict, user: i32) -> (r: (bool, bool))
    requires
        v == verdict(g@),
    ensures
        r.0 == wins(g@, user),
        r.1 == loses(g@, user),
{
    match v {
        Verdict::UpWins => (has_vote(g, user, true), has_vote(g, user, false)),
        Verdict::DownWins => (has_vote(g, user, false), has_vote(g, user, true)),
        Verdict::Tie => (false, false),
    }
}

fn insert_sorted(r: &mut Vec<User>, u: User) -> (pos: usize)
    requires
        sorted_by_id(users_view(old(r)@)),
        forall|k: int| 0 <= k < old(r)@.len() ==> #[trigger] old(r)@[k].id != u.id,
    ensures
        pos <= old(r)@.len(),
        users_view(final(r)@) == users_view(old(r)@).insert(pos as int, u@),
        sorted_by_id(users_view(final(r)@)),
{
    let ghost before = users_view(r@);
    let mut pos: usize = 0;
    while pos < r.len() && r[pos].id < u.id
        invariant
            pos <= r@.len(),
            r@ == old(r)@,
            forall|k: int| 0 <= k < pos ==> #[trigger] r@[k].id < u.id,
        decreases r@.len() - pos,
    {
        pos += 1;
    }
    let ghost uv = u@;
    r.insert(pos, u);
    assert(users_view(r@) =~= before.insert(pos as int, uv));
    let ghost after = users_view(r@);
    assert forall|a: int, b: int| 0 <= a < b < after.len() implies after[a].id < after[b].id by {
        if pos < old(r)@.len() {
            assert(old(r)@[pos as int].id > uv.id);
        }
        if a < pos && b > pos {
            assert(after[a].id < uv.id);
            assert(after[b] == before[b - 1]);
            assert(before[b - 1].id >= before[pos as int].id);
        }
    }
    pos
}

/// Applies the closed posts `groups` (the votes on each, in the order the
/// posts were closed) to the snapshot `users`, and returns the users who won
/// or lost on at least one of them: each once, in its final state, sorted by
/// id. A tied post, with no votes or as many up as down, changes nobody.
pub fn settle(users: &Vec<User>, groups: &Vec<Vec<Vote>>) -> (r: Vec<User>)
    requires
        distinct_ids(users_view(users@)),
        forall|a: int|
            0 <= a < users@.len() ==> room_for_posts(
                #[trigger] users@[a]@,
                groups_view(groups@),
            ),
    ensures
        sorted_by_id(users_view(r@)),
        forall|k: int|
            0 <= k < r@.len() ==> settled_from(
                #[trigger] r@[k]@,
                users@,
                users@.len() as int,
                groups_view(groups@),
            ),
        forall|a: int|
            0 <= a < users@.len() && affected(#[trigger] users@[a].id, groups_view(groups@))
                ==> users_view(r@).contains(settled(users@[a]@, groups_view(groups@))),
{
    let ghost gv = groups_view(groups@);
    let verdicts = verdicts_of(groups);
    let mut r: Vec<User> = Vec::new();
    let mut a: usize = 0;
    while a < users.len()
        invariant
            a <= users@.len(),
            gv == groups_view(groups@),
            verdicts@.len() == groups@.len(),
            forall|k: int| 0 <= k < groups@.len() ==> #[trigger] verdicts@[k] == verdict(groups@[k]@),
            distinct_ids(users_view(users@)),
            forall|b: int| 0 <= b < users@.len() ==> room_for_posts(#[trigger] users@[b]@, gv),
            sorted_by_id(users_view(r@)),
            forall|k: int| 0 <= k < r@.len() ==> settled_from(#[trigger] r@[k]@, users@, a as int, gv),
            forall|b: int|
                0 <= b < a && affected(#[trigger] users@[b].id, gv) ==> users_view(r@).contains(
                    settled(users@[b]@, gv),
                ),
        decreases users@.len() - a,
    {
        let u = &users[a];
        let ghost uv = u@;
        let mut karma: i32 = u.karma;
        let mut streak: i16 = u.streak;
        let mut touched = false;
        let mut i: usize = 0;
        while i < groups.len()
            invariant
                i <= groups@.len(),
                gv == groups_view(groups@),
                verdicts@.len() == groups@.len(),
                forall|k: int| 0 <= k < groups@.len() ==> #[trigger] verdicts@[k] == verdict(groups@[k]@),
                uv == u@,
                room_for_posts(uv, gv),
                karma == final_karma(uv.karma as int, uv.id, gv.take(i as int)),
                streak == final_streak(uv.streak as int, uv.id, gv.take(i as int)),
                touched == exists|k: int|
                    0 <= k < i && (wins(#[trigger] gv[k], uv.id) || loses(gv[k], uv.id)),
            decreases groups@.len() - i,
        {
            let (won, lost) = outcome(&groups[i], verdicts[i], u.id);
            let ghost prefix = gv.take(i + 1);
            proof {
                assert(gv[i as int] == groups@[i as int]@);
                assert(prefix.drop_last() =~= gv.take(i as int));
                assert(prefix.last() == gv[i as int]);
                assert(won == wins(gv[i as int], uv.id));
                assert(lost == loses(gv[i as int], uv.id));
                lemma_bounds(uv.karma as int, uv.streak as int, uv.id, gv.take(i as int));
                lemma_decided_prefix(uv.id, gv, i + 1);
                assert(decided(uv.id, prefix) == decided(uv.id, gv.take(i as int)) + if won
                    || lost {
                    1nat
                } else {
                    0nat
                });
            }
            if lost {
                karma = karma - KARMA_STEP;
                streak = 0;
            }
            if won {
                karma = karma + KARMA_STEP;
                streak = streak + 1;
            }
            if won || lost {
                touched = true;
            }
            i += 1;
        }
        proof {
            assert(gv.take(i as int) =~= gv);
            assert(gv.len() == groups@.len());
        }
        if touched {
            let v = User { id: u.id, username: u.username.clone(), karma, streak };
            proof {
                assert(v@ == settled(uv, gv));
                assert forall|k: int| 0 <= k < r@.len() implies #[trigger] r@[k].id != v.id by {
                    assert(settled_from(r@[k]@, users@, a as int, gv));
                    let b = choose|b: int|
                        0 <= b < a && affected(users@[b].id, gv) && r@[k]@ == settled(
                            users@[b]@,
                            gv,
                        );
                    assert(users_view(users@)[b] == users@[b]@);
                    assert(users_view(users@)[a as int] == users@[a as int]@);
                }
            }
            let ghost old_r = r@;
            let pos = insert_sorted(&mut r, v);
            proof {
                assert(users_view(r@).len() == users_view(old_r).len() + 1);
                assert(r@.len() == old_r.len() + 1);
                assert forall|k: int| 0 <= k < r@.len() implies settled_from(
                    #[trigger] r@[k]@,
                    users@,
                    a + 1,
                    gv,
                ) by {
                    assert(users_view(r@)[k] == r@[k]@);
                    if k < pos {
                        assert(users_view(old_r)[k] == old_r[k]@);
                        assert(r@[k]@ == old_r[k]@);
                        assert(settled_from(old_r[k]@, users@, a as int, gv));
                    } else if k > pos {
                        assert(users_view(old_r)[k - 1] == old_r[k - 1]@);
                        assert(r@[k]@ == old_r[k - 1]@);
                        assert(settled_from(old_r[k - 1]@, users@, a as int, gv));
                    } else {
                        assert(r@[k]@ == settled(users@[a as int]@, gv));
                        assert(affected(users@[a as int].id, gv));
                    }
                }
                assert forall|b: int|
                    0 <= b < a + 1 && affected(#[trigger] users@[b].id, gv) implies users_view(
                    r@,
                ).contains(settled(users@[b]@, gv)) by {
                    if b < a {
                        let j = choose|j: int|
                            0 <= j < users_view(old_r).len() && users_view(old_r)[j] == settled(
                                users@[b]@,
                                gv,
                            );
                        let j2 = if j < pos { j } else { j + 1 };
                        assert(users_view(r@)[j2] == settled(users@[b]@, gv));
                    } else {
                        assert(users_view(r@)[pos as int] == settled(users@[b]@, gv));
                    }
                }
            }
        }
        if !touched {
            proof {
                assert forall|k: int| 0 <= k < r@.len() implies settled_from(
                    #[trigger] r@[k]@,
                    users@,
                    a + 1,
                    gv,
                ) by {
                    assert(settled_from(r@[k]@, users@, a as int, gv));
                }
            }
        }
        a += 1;
    }
    r
}

/// No voter casts two votes on the post.
pub open spec fn one_vote_each(votes: Seq<Vote>) -> bool {
    forall|a: int, b: int|
        0 <= a < b < votes.len() ==> #[trigger] votes[a].user_id != #[trigger] votes[b].user_id
}

/// A tied post, with as many up-votes as down-votes (none at all
/// included), changes neither the karma nor the streak of anybody.
pub proof fn lemma_tie_changes_nobody(
    karma: int,
    streak: int,
    user: i32,
    before: Seq<Seq<Vote>>,
    votes: Seq<Vote>,
)
    requires
        count_up(votes) == count_down(votes),
    ensures
        !wins(votes, user),
        !loses(votes, user),
        final_karma(karma, user, before.push(votes)) == final_karma(karma, user, before),
        final_streak(streak, user, before.push(votes)) == final_streak(streak, user, before),
{
    assert(before.push(votes).drop_last() =~= before);
}

/// On a post with one vote per voter, nobody both wins and loses.
pub proof fn lemma_single_side(votes: Seq<Vote>, user: i32)
    requires
        one_vote_each(votes),
    ensures
        !(wins(votes, user) && loses(votes, user)),
{
    if wins(votes, user) && loses(votes, user) {
        let a = choose|j: int| 0 <= j < votes.len() && votes[j].user_id == user && votes[j].up;
        let b = choose|j: int| 0 <= j < votes.len() && votes[j].user_id == user && !votes[j].up;
        if a < b {
            assert(votes[a].user_id != votes[b].user_id);
        } else {
            assert(votes[b].user_id != votes[a].user_id);
        }
    }
}

/// On a closed post with more up-votes than down-votes, each up-voter gains
/// the karma step and one streak point, and each down-voter loses the karma
/// step and its streak.
pub proof fn lemma_majority_outcome(karma: int, streak: int, user: i32, votes: Seq<Vote>)
    requires
        one_vote_each(votes),
        count_up(votes) > count_down(votes),
    ensures
        voted(votes, user, true) ==> final_karma(karma, user, seq![votes]) == karma + KARMA_STEP
            && final_streak(streak, user, seq![votes]) == streak + 1,
        voted(votes, user, false) ==> final_karma(karma, user, seq![votes]) == karma - KARMA_STEP
            && final_streak(streak, user, seq![votes]) == 0,
{
    lemma_single_side(votes, user);
    let one = seq![votes];
    assert(one.drop_last() =~= Seq::<Seq<Vote>>::empty());
    assert(one.last() == votes);
    assert(verdict(votes) == Verdict::UpWins);
    assert(final_karma(karma, user, one.drop_last()) == karma);
    assert(final_streak(streak, user, one.drop_last()) == streak);
    assert(wins(votes, user) == voted(votes, user, true));
    assert(loses(votes, user) == voted(votes, user, false));
}

/// A user who wins on two posts of one cycle gets both increments: twice
/// the karma step and two more in the streak.
pub proof fn lemma_two_wins(karma: int, streak: int, user: i32, first: Seq<Vote>, second: Seq<Vote>)
    requires
        one_vote_each(first),
        one_vote_each(second),
        wins(first, user),
        wins(second, user),
    ensures
        final_karma(karma, user, seq![first, second]) == karma + 2 * KARMA_STEP,
        final_streak(streak, user, seq![first, second]) == streak + 2,
{
    lemma_single_side(first, user);
    lemma_single_side(second, user);
    let posts = seq![first, second];
    let one = seq![first];
    assert(posts.drop_last() =~= one);
    assert(posts.last() == second);
    assert(one.drop_last() =~= Seq::<Seq<Vote>>::empty());
    assert(one.last() == first);
    assert(final_karma(karma, user, one.drop_last()) == karma);
    assert(final_streak(streak, user, one.drop_last()) == streak);
    assert(final_karma(karma, user, one) == karma + KARMA_STEP);
    assert(final_streak(streak, user, one) == streak + 1);
}

/// A list sorted by strictly increasing id names each user at most once.
pub proof fn lemma_sorted_unique(s: Seq<UserV>)
    requires
        sorted_by_id(s),
    ensures
        distinct_ids(s),
{
}

fn room_for(u: &User, n: usize) -> (r: bool)
    ensures
        r == has_room(u@, n as nat),
{
    assert(n as i128 <= u64::MAX as i128);
    let steps: i128 = (KARMA_STEP as i128) * (n as i128);
    let karma = u.karma as i128;
    let streak: i128 = if u.streak < 0 {
        0
    } else {
        u.streak as i128
    };
    karma - steps >= i32::MIN as i128 && karma + steps <= i32::MAX as i128 && streak + (n as i128)
        <= i16::MAX as i128
}

fn decided_count(user: i32, groups: &Vec<Vec<Vote>>, verdicts: &Vec<Verdict>) -> (d: usize)
    requires
        verdicts@.len() == groups@.len(),
        forall|k: int| 0 <= k < groups@.len() ==> #[trigger] verdicts@[k] == verdict(groups@[k]@),
    ensures
        d == decided(user, groups_view(groups@)),
{
    let ghost gv = groups_view(groups@);
    let mut d: usize = 0;
    let mut i: usize = 0;
    while i < groups.len()
        invariant
            i <= groups@.len(),
            gv == groups_view(groups@),
            verdicts@.len() == groups@.len(),
            forall|k: int| 0 <= k < groups@.len() ==> #[trigger] verdicts@[k] == verdict(groups@[k]@),
            d == decided(user, gv.take(i as int)),
            d <= i,
        decreases groups@.len() - i,
    {
        let (won, lost) = outcome(&groups[i], verdicts[i], user);
        proof {
            assert(gv[i as int] == groups@[i as int]@);
            assert(gv.take(i + 1).drop_last() =~= gv.take(i as int));
            assert(gv.take(i + 1).last() == gv[i as int]);
        }
        if won || lost {
            d += 1;
        }
        i += 1;
    }
    assert(gv.take(i as int) =~= gv);
    d
}

/// Settles like `settle` when the snapshot names each user once and the
/// standing of every user stays within its types over the posts the user
/// won or lost on; otherwise settles nothing and returns `None`.
pub fn try_settle(users: &Vec<User>, groups: &Vec<Vec<Vote>>) -> (r: Option<Vec<User>>)
    ensures
        r is Some <==> (distinct_ids(users_view(users@)) && forall|a: int|
            0 <= a < users@.len() ==> room_for_posts(#[trigger] users@[a]@, groups_view(groups@))),
        r matches Some(out) ==> {
            &&& sorted_by_id(users_view(out@))
            &&& forall|k: int|
                0 <= k < out@.len() ==> settled_from(
                    #[trigger] out@[k]@,
                    users@,
                    users@.len() as int,
                    groups_view(groups@),
                )
            &&& forall|a: int|
                0 <= a < users@.len() && affected(#[trigger] users@[a].id, groups_view(groups@))
                    ==> users_view(out@).contains(settled(users@[a]@, groups_view(groups@)))
        },
{
    let ghost uv = users_view(users@);
    let verdicts = verdicts_of(groups);
    let mut a: usize = 0;
    while a < users.len()
        invariant
            a <= users@.len(),
            uv == users_view(users@),
            verdicts@.len() == groups@.len(),
            forall|k: int| 0 <= k < groups@.len() ==> #[trigger] verdicts@[k] == verdict(groups@[k]@),
            forall|x: int, y: int| 0 <= x < y < a ==> uv[x].id != uv[y].id,
            forall|x: int|
                0 <= x < a ==> room_for_posts(#[trigger] users@[x]@, groups_view(groups@)),
        decreases users@.len() - a,
    {
        let d = decided_count(users[a].id, groups, &verdicts);
        if !room_for(&users[a], d) {
            return None;
        }
        let mut b: usize = 0;
        while b < a
            invariant
                b <= a < users@.len(),
                uv == users_view(users@),
                forall|x: int| 0 <= x < b ==> uv[x].id != uv[a as int].id,
            decreases a - b,
        {
            if users[b].id == users[a].id {
                proof {
                    assert(uv[b as int] == users@[b as int]@);
                    assert(uv[a as int] == users@[a as int]@);
                }
                return None;
            }
            b += 1;
        }
        a += 1;
    }
    Some(settle(users, groups))
}

} // verus!
