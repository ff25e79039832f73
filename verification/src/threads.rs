use vstd::prelude::*;
use crate::errors::Error;
use crate::invariants::post_ids_are_increasing;
use crate::models::{Post, Reply, ReplyEdge};
use crate::store::Store;
use crate::text::same_text;

verus! {

/// The posts of one thread of a board, in the order in which they were
/// made.
pub open spec fn thread_posts(posts: Seq<Post>, board: Seq<char>, thread: i32) -> Seq<Post>
    decreases posts.len(),
{
    if posts.len() == 0 {
        Seq::empty()
    } else {
        let rest = thread_posts(posts.drop_last(), board, thread);
        if posts.last().board@ == board && posts.last().thread == thread {
            rest.push(posts.last())
        } else {
            rest
        }
    }
}

/// The posts that refer to the post `id` of a board, in the order in which
/// the edges were made.
pub open spec fn replies_to(edges: Seq<ReplyEdge>, board: Seq<char>, id: i32) -> Seq<Reply>
    decreases edges.len(),
{
    if edges.len() == 0 {
        Seq::empty()
    } else {
        let rest = replies_to(edges.drop_last(), board, id);
        if edges.last().message_board@ == board && edges.last().message_id == id {
            rest.push(edges.last().reply)
        } else {
            rest
        }
    }
}

/// Whether a post moves its thread to the top of the listing: the post
/// that opens the thread always does, a reply unless it is marked sage.
pub open spec fn bumps(post: Post) -> bool {
    post.is_root() || !post.sage
}

/// The time by which a thread is ranked: the latest time of a post of the
/// thread that bumps it.
pub open spec fn last_bump(posts: Seq<Post>, board: Seq<char>, thread: i32) -> i64
    decreases posts.len(),
{
    if posts.len() == 0 {
        i64::MIN
    } else {
        let rest = last_bump(posts.drop_last(), board, thread);
        let post = posts.last();
        if post.board@ == board && post.thread == thread && bumps(post) && post.posted_at > rest {
            post.posted_at
        } else {
            rest
        }
    }
}

/// A reply that is marked sage leaves the rank of every thread as it was.
pub proof fn sage_reply_does_not_bump(posts: Seq<Post>, reply: Post, board: Seq<char>, thread: i32)
    requires
        reply.sage,
        !reply.is_root(),
    ensures
        last_bump(posts.push(reply), board, thread) == last_bump(posts, board, thread),
{
    assert(posts.push(reply).drop_last() == posts);
}

/// A reply that is not marked sage ranks its thread by its own time, if
/// that is later than the rank that the thread had, and leaves every other
/// thread as it was.
pub proof fn plain_reply_bumps(posts: Seq<Post>, reply: Post, board: Seq<char>, thread: i32)
    requires
        !reply.sage,
    ensures
        last_bump(posts.push(reply), board, thread) == if reply.board@ == board && reply.thread
            == thread && reply.posted_at > last_bump(posts, board, thread) {
            reply.posted_at
        } else {
            last_bump(posts, board, thread)
        },
{
    assert(posts.push(reply).drop_last() == posts);
}

impl Store {
    /// The time by which a thread of a board is ranked.
    pub fn bump_of(&self, board: &str, thread: i32) -> (at: i64)
        ensures
            at == last_bump(self.posts@, board@, thread),
    {
        let mut at: i64 = i64::MIN;
        let mut i: usize = 0;
        while i < self.posts.len()
            invariant
                i <= self.posts@.len(),
                at == last_bump(self.posts@.take(i as int), board@, thread),
            decreases self.posts@.len() - i,
        {
            proof {
                let upto = self.posts@.take(i + 1);
                assert(upto.drop_last() == self.posts@.take(i as int));
            }
            let post = &self.posts[i];
            if post.thread == thread && (post.thread == post.id || !post.sage) && post.posted_at
                > at && same_text(post.board.as_str(), board) {
                at = post.posted_at;
            }
            i += 1;
        }
        proof {
            assert(self.posts@.take(i as int) == self.posts@);
        }
        at
    }
}

/// Whether `order` lists the places of the threads of the board among the
/// first `upto` posts, each once, with the time of its last bump in `keys`,
/// from the latest to the earliest.
pub open spec fn ranked(
    posts: Seq<Post>,
    board: Seq<char>,
    order: Seq<usize>,
    keys: Seq<i64>,
    upto: int,
) -> bool {
    &&& order.len() == keys.len()
    &&& forall|k: int|
        0 <= k < order.len() ==> (#[trigger] order[k]) < upto && order[k] < posts.len()
            && posts[order[k] as int].board@ == board && posts[order[k] as int].is_root()
            && keys[k] == last_bump(posts, board, posts[order[k] as int].id)
    &&& forall|k: int, l: int|
        0 <= k < l < order.len() ==> (#[trigger] order[k]) != (#[trigger] order[l])
    &&& forall|i: int|
        0 <= i < upto && i < posts.len() && (#[trigger] posts[i]).board@ == board
            && posts[i].is_root() ==> exists|k: int|
            0 <= k < order.len() && (#[trigger] order[k]) == i
    &&& forall|k: int, l: int|
        0 <= k < l < keys.len() ==> (#[trigger] keys[k]) >= (#[trigger] keys[l])
    &&& forall|k: int, l: int|
        0 <= k < l < order.len() && keys[k] == keys[l] ==> (#[trigger] order[k]) < (
        #[trigger] order[l])
}

proof fn lemma_ranked_skip(
    posts: Seq<Post>,
    board: Seq<char>,
    order: Seq<usize>,
    keys: Seq<i64>,
    j: int,
)
    requires
        ranked(posts, board, order, keys, j),
        0 <= j < posts.len(),
        !(posts[j].board@ == board && posts[j].is_root()),
    ensures
        ranked(posts, board, order, keys, j + 1),
{
}

proof fn lemma_ranked_insert(
    posts: Seq<Post>,
    board: Seq<char>,
    order: Seq<usize>,
    keys: Seq<i64>,
    j: int,
    p: int,
    key: i64,
)
    requires
        ranked(posts, board, order, keys, j),
        0 <= j < posts.len(),
        j <= usize::MAX,
        posts[j].board@ == board,
        posts[j].is_root(),
        key == last_bump(posts, board, posts[j].id),
        0 <= p <= keys.len(),
        forall|k: int| 0 <= k < p ==> (#[trigger] keys[k]) >= key,
        p < keys.len() ==> keys[p] < key,
    ensures
        ranked(posts, board, order.insert(p, j as usize), keys.insert(p, key), j + 1),
{
    let new_order = order.insert(p, j as usize);
    let new_keys = keys.insert(p, key);
    assert(new_order[p] == j);
    assert forall|k: int| 0 <= k < p implies new_order[k] == order[k] && new_keys[k]
        == keys[k] by {}
    assert forall|i: int|
        0 <= i < j + 1 && i < posts.len() && (#[trigger] posts[i]).board@ == board
            && posts[i].is_root() implies exists|k: int|
        0 <= k < new_order.len() && (#[trigger] new_order[k]) == i by {
        if i < j {
            let k0 = choose|k: int| 0 <= k < order.len() && (#[trigger] order[k]) == i;
            if k0 >= p {
                assert(new_order[k0 + 1] == i);
            }
        }
    }
}

impl Post {
    /// Every post of a thread of a board, in the order in which they were
    /// made. A thread holds at least the post that opens it, so that an
    /// empty result means that there is no such thread.
    pub fn for_thread<'a>(board: &str, id: i32, store: &'a Store) -> (out: Result<
        Vec<&'a Post>,
        Error,
    >)
        ensures
            match out {
                Ok(found) => found@.len() > 0 && found@.len() == thread_posts(
                    store.posts@,
                    board@,
                    id,
                ).len() && forall|i: int|
                    0 <= i < found@.len() ==> *(#[trigger] found@[i]) == thread_posts(
                        store.posts@,
                        board@,
                        id,
                    )[i],
                Err(e) => e == Error::NotFound && thread_posts(store.posts@, board@, id).len()
                    == 0,
            },
    {
        let mut found: Vec<&'a Post> = Vec::new();
        let mut i: usize = 0;
        while i < store.posts.len()
            invariant
                i <= store.posts@.len(),
                found@.len() == thread_posts(store.posts@.take(i as int), board@, id).len(),
                forall|k: int|
                    0 <= k < found@.len() ==> *(#[trigger] found@[k]) == thread_posts(
                        store.posts@.take(i as int),
                        board@,
                        id,
                    )[k],
            decreases store.posts@.len() - i,
        {
            proof {
                let upto = store.posts@.take(i + 1);
                assert(upto.drop_last() == store.posts@.take(i as int));
            }
            let post = &store.posts[i];
            if post.thread == id && same_text(post.board.as_str(), board) {
                found.push(post);
            }
            i += 1;
        }
        proof {
            assert(store.posts@.take(i as int) == store.posts@);
        }
        if found.len() == 0 {
            Err(Error::NotFound)
        } else {
            Ok(found)
        }
    }

    /// The posts that refer to this post.
    pub fn replies<'a>(&self, store: &'a Store) -> (found: Vec<&'a Reply>)
        ensures
            found@.len() == replies_to(store.replies@, self.board@, self.id).len(),
            forall|i: int|
                0 <= i < found@.len() ==> *(#[trigger] found@[i]) == replies_to(
                    store.replies@,
                    self.board@,
                    self.id,
                )[i],
    {
        let mut found: Vec<&'a Reply> = Vec::new();
        let mut i: usize = 0;
        while i < store.replies.len()
            invariant
                i <= store.replies@.len(),
                found@.len() == replies_to(
                    store.replies@.take(i as int),
                    self.board@,
                    self.id,
                ).len(),
                forall|k: int|
                    0 <= k < found@.len() ==> *(#[trigger] found@[k]) == replies_to(
                        store.replies@.take(i as int),
                        self.board@,
                        self.id,
                    )[k],
            decreases store.replies@.len() - i,
        {
            proof {
                let upto = store.replies@.take(i + 1);
                assert(upto.drop_last() == store.replies@.take(i as int));
            }
            let edge = &store.replies[i];
            if edge.message_id == self.id && same_text(
                edge.message_board.as_str(),
                self.board.as_str(),
            ) {
                found.push(&edge.reply);
            }
            i += 1;
        }
        proof {
            assert(store.replies@.take(i as int) == store.replies@);
        }
        found
    }

    /// The threads of a board, each as the post that opens it, from the
    /// thread that was bumped last to the one that was bumped first.
    /// Threads that were bumped at the same time stand in the order in
    /// which they were opened.
    pub fn threads_for_board<'a>(board: &str, store: &'a Store) -> (threads: Vec<&'a Post>)
        requires
            store.wf(),
        ensures
            listed(store.posts@, board@, posts_of(threads@)),
    {
        let (order, keys) = store.rank_threads(board);
        let posts = &store.posts;
        let mut threads: Vec<&'a Post> = Vec::new();
        let mut k: usize = 0;
        while k < order.len()
            invariant
                k <= order@.len(),
                posts@ == store.posts@,
                threads@.len() == k,
                forall|i: int| 0 <= i < order@.len() ==> (#[trigger] order@[i]) < posts@.len(),
                forall|i: int| 0 <= i < k ==> *(#[trigger] threads@[i]) == posts@[order@[i] as int],
            decreases order@.len() - k,
        {
            threads.push(&posts[order[k]]);
            k += 1;
        }
        proof {
            lemma_ranked_listed(*store, board@, order@, keys@, posts_of(threads@));
        }
        threads
    }
}

impl Store {
    /// The places of the threads of a board, from the thread that was
    /// bumped last to the one that was bumped first, and the time of the
    /// last bump of each.
    pub fn rank_threads(&self, board: &str) -> (out: (Vec<usize>, Vec<i64>))
        ensures
            ranked(self.posts@, board@, out.0@, out.1@, self.posts@.len() as int),
    {
        let mut order: Vec<usize> = Vec::new();
        let mut keys: Vec<i64> = Vec::new();
        let mut j: usize = 0;
        while j < self.posts.len()
            invariant
                j <= self.posts@.len(),
                ranked(self.posts@, board@, order@, keys@, j as int),
            decreases self.posts@.len() - j,
        {
            let post = &self.posts[j];
            if post.thread == post.id && same_text(post.board.as_str(), board) {
                let key = self.bump_of(board, post.id);
                let mut at: usize = 0;
                while at < keys.len() && keys[at] >= key
                    invariant
                        at <= keys@.len(),
                        forall|k: int| 0 <= k < at ==> (#[trigger] keys@[k]) >= key,
                    decreases keys@.len() - at,
                {
                    at += 1;
                }
                proof {
                    lemma_ranked_insert(
                        self.posts@,
                        board@,
                        order@,
                        keys@,
                        j as int,
                        at as int,
                        key,
                    );
                }
                order.insert(at, j);
                keys.insert(at, key);
            } else {
                proof {
                    lemma_ranked_skip(self.posts@, board@, order@, keys@, j as int);
                }
            }
            j += 1;
        }
        (order, keys)
    }
}

/// The posts that a run of references points to.
pub open spec fn posts_of(threads: Seq<&Post>) -> Seq<Post> {
    Seq::new(threads.len(), |i: int| *threads[i])
}

/// Whether `threads` is the listing of a board: each entry is a post of
/// the board that opens a thread; every thread of the board is there, and
/// none twice; no entry was bumped later than one that stands before it;
/// and of two entries that were bumped at the same time the one that was
/// opened first stands first.
pub open spec fn listed(posts: Seq<Post>, board: Seq<char>, threads: Seq<Post>) -> bool {
    &&& forall|k: int|
        0 <= k < threads.len() ==> (#[trigger] threads[k]).board@ == board && threads[k].is_root()
            && posts.contains(threads[k])
    &&& forall|j: int|
        0 <= j < posts.len() && (#[trigger] posts[j]).board@ == board && posts[j].is_root()
            ==> threads.contains(posts[j])
    &&& forall|k: int, l: int|
        0 <= k < l < threads.len() ==> (#[trigger] threads[k]).id != (#[trigger] threads[l]).id
    &&& forall|k: int, l: int|
        0 <= k < l < threads.len() ==> last_bump(posts, board, (#[trigger] threads[k]).id)
            >= last_bump(posts, board, (#[trigger] threads[l]).id)
    &&& forall|k: int, l: int|
        0 <= k < l < threads.len() && last_bump(posts, board, (#[trigger] threads[k]).id)
            == last_bump(posts, board, (#[trigger] threads[l]).id) ==> threads[k].id
            < threads[l].id
}

proof fn lemma_ranked_listed(
    store: Store,
    board: Seq<char>,
    order: Seq<usize>,
    keys: Seq<i64>,
    threads: Seq<Post>,
)
    requires
        store.wf(),
        ranked(store.posts@, board, order, keys, store.posts@.len() as int),
        threads.len() == order.len(),
        forall|i: int|
            0 <= i < order.len() ==> (#[trigger] threads[i]) == store.posts@[order[i] as int],
    ensures
        listed(store.posts@, board, threads),
{
    let posts = store.posts@;
    assert forall|j: int|
        0 <= j < posts.len() && (#[trigger] posts[j]).board@ == board
            && posts[j].is_root() implies threads.contains(posts[j]) by {
        let k0 = choose|k: int| 0 <= k < order.len() && (#[trigger] order[k]) == j;
        assert(threads[k0] == posts[j]);
    }
    assert forall|a: int, b: int|
        0 <= a < b < threads.len() && last_bump(posts, board, (#[trigger] threads[a]).id)
            == last_bump(posts, board, (#[trigger] threads[b]).id) implies threads[a].id
        < threads[b].id by {
        let x = order[a] as int;
        let y = order[b] as int;
        let at = choose|at: int|
            0 <= at < store.boards@.len() && (#[trigger] store.boards@[at]).name@
                == posts[x].board@;
        post_ids_are_increasing(store, at, x, y);
    }
}

} // verus!
