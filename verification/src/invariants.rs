use vstd::prelude::*;
use crate::ident::Uuid;
use crate::models::{Board, Post};
use crate::net::IpNetwork;
use crate::store::{has_post, ids_on, lemma_ids_on_push, Store};

verus! {

/// The ids of a board among the first `j` posts open the ids of the board
/// among all posts.
pub proof fn lemma_ids_on_prefix(posts: Seq<Post>, board: Seq<char>, j: int)
    requires
        0 <= j <= posts.len(),
    ensures
        ids_on(posts.take(j), board).len() <= ids_on(posts, board).len(),
        ids_on(posts, board).take(ids_on(posts.take(j), board).len() as int) == ids_on(
            posts.take(j),
            board,
        ),
    decreases posts.len() - j,
{
    if j == posts.len() {
        assert(posts.take(j) == posts);
    } else {
        lemma_ids_on_prefix(posts, board, j + 1);
        assert(posts.take(j + 1) == posts.take(j).push(posts[j]));
        lemma_ids_on_push(posts.take(j), posts[j], board);
    }
}

/// Each id of a board belongs to a post of the board.
pub proof fn lemma_ids_on_have_posts(posts: Seq<Post>, board: Seq<char>, r: int)
    requires
        0 <= r < ids_on(posts, board).len(),
    ensures
        has_post(posts, board, ids_on(posts, board)[r]),
    decreases posts.len(),
{
    let rest = posts.drop_last();
    let last = posts.last();
    if !(last.board@ == board && r == ids_on(rest, board).len()) {
        lemma_ids_on_have_posts(rest, board, r);
    }
}

/// The posts of a board are numbered in the order in which they were made:
/// a post that has `k` posts of its board before it has the id `k + 1`, and
/// no id is beyond the board's counter.
pub proof fn post_ids_are_sequential(store: Store, b: int, j: int)
    requires
        store.wf(),
        0 <= b < store.boards@.len(),
        0 <= j < store.posts@.len(),
        store.posts@[j].board@ == store.boards@[b].name@,
    ensures
        store.posts@[j].id == ids_on(store.posts@.take(j), store.boards@[b].name@).len() + 1,
        1 <= store.posts@[j].id <= store.boards@[b].next_post_id,
{
    let posts = store.posts@;
    let board = store.boards@[b].name@;
    let r = ids_on(posts.take(j), board).len() as int;
    assert(posts.take(j + 1) == posts.take(j).push(posts[j]));
    lemma_ids_on_push(posts.take(j), posts[j], board);
    lemma_ids_on_prefix(posts, board, j + 1);
    let upto = ids_on(posts.take(j + 1), board);
    assert(upto[r] == posts[j].id);
}

/// No two posts of one board share an id: of two posts of one board, the
/// later has the larger id.
pub proof fn post_ids_are_increasing(store: Store, b: int, i: int, j: int)
    requires
        store.wf(),
        0 <= b < store.boards@.len(),
        0 <= i < j < store.posts@.len(),
        store.posts@[i].board@ == store.boards@[b].name@,
        store.posts@[j].board@ == store.boards@[b].name@,
    ensures
        store.posts@[i].id < store.posts@[j].id,
{
    let posts = store.posts@;
    let board = store.boards@[b].name@;
    post_ids_are_sequential(store, b, i);
    post_ids_are_sequential(store, b, j);
    assert(posts.take(i + 1) == posts.take(i).push(posts[i]));
    lemma_ids_on_push(posts.take(i), posts[i], board);
    assert(posts.take(j).take(i + 1) == posts.take(i + 1));
    lemma_ids_on_prefix(posts.take(j), board, i + 1);
}

/// The ids of a board have no gap: every number from 1 to the board's
/// counter is the id of one of its posts.
pub proof fn post_ids_have_no_gap(store: Store, b: int, id: i32)
    requires
        store.wf(),
        0 <= b < store.boards@.len(),
        1 <= id <= store.boards@[b].next_post_id,
    ensures
        has_post(store.posts@, store.boards@[b].name@, id),
{
    let board = store.boards@[b].name@;
    lemma_ids_on_have_posts(store.posts@, board, id - 1);
}

/// Whether `after` are the boards `before` once the board of that name has
/// given out `id`: its counter has gone up by one to `id`, and every other
/// board is as it was.
pub open spec fn took_id(before: Seq<Board>, after: Seq<Board>, id: i32, board: Seq<char>) -> bool {
    &&& after.len() == before.len()
    &&& forall|b: int|
        0 <= b < before.len() ==> (#[trigger] after[b]).name@ == before[b].name@
            && after[b].next_post_id == if before[b].name@ == board {
            id
        } else {
            before[b].next_post_id
        }
    &&& forall|b: int|
        0 <= b < before.len() && (#[trigger] before[b]).name@ == board ==> id
            == before[b].next_post_id + 1
}

/// Of a run of ids that were given out, each on the board named beside it,
/// those that were given out on one board.
pub open spec fn ids_given(on: Seq<Seq<char>>, ids: Seq<i32>, board: Seq<char>) -> Seq<i32>
    decreases ids.len(),
{
    if ids.len() == 0 || on.len() != ids.len() {
        Seq::empty()
    } else if on.last() == board {
        ids_given(on.drop_last(), ids.drop_last(), board).push(ids.last())
    } else {
        ids_given(on.drop_last(), ids.drop_last(), board)
    }
}

/// A post that is made takes its id from its board.
pub proof fn posting_takes_an_id(
    before: Store,
    after: Store,
    id: i32,
    thread: i32,
    board: Seq<char>,
    title: Option<Seq<char>>,
    author: Option<Seq<char>>,
    email: Option<Seq<char>>,
    sage: bool,
    content: Option<Seq<char>>,
    ip: IpNetwork,
    image: Option<Uuid>,
    now: i64,
)
    requires
        before.posted(
            after,
            id,
            thread,
            board,
            title,
            author,
            email,
            sage,
            content,
            ip,
            image,
            now,
        ),
    ensures
        took_id(before.boards@, after.boards@, id, board),
{
}

/// However posts to several boards follow one another, the posts of one
/// board take consecutive ids: if the boards pass through `states` as the
/// ids `ids` are given out, each on the board named in `on`, then the ids
/// given out on one board are the numbers that follow its counter, without
/// a gap and none twice, and its counter ends at the last of them.
pub proof fn ids_are_given_in_sequence(
    states: Seq<Seq<Board>>,
    on: Seq<Seq<char>>,
    ids: Seq<i32>,
    b: int,
)
    requires
        states.len() == ids.len() + 1,
        on.len() == ids.len(),
        forall|k: int|
            0 <= k < ids.len() ==> took_id(#[trigger] states[k], states[k + 1], ids[k], on[k]),
        0 <= b < states[0].len(),
    ensures
        states.last().len() == states[0].len(),
        states.last()[b].name@ == states[0][b].name@,
        ids_given(on, ids, states[0][b].name@).len() == states.last()[b].next_post_id
            - states[0][b].next_post_id,
        forall|i: int|
            0 <= i < ids_given(on, ids, states[0][b].name@).len() ==> #[trigger] ids_given(
                on,
                ids,
                states[0][b].name@,
            )[i] == states[0][b].next_post_id + 1 + i,
    decreases ids.len(),
{
    let n = ids.len() as int;
    if n > 0 {
        let shorter = states.drop_last();
        ids_are_given_in_sequence(shorter, on.drop_last(), ids.drop_last(), b);
    }
}

} // verus!
