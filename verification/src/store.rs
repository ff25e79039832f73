use vstd::prelude::*;
use crate::ident::Uuid;
use crate::models::{Ban, Board, Challenge, Image, Post, ReplyEdge, Session, StoredFile, User};
use crate::text::{same_text, text_lt};

verus! {

/// Everything that the board keeps: its tables, and the two trees of files
/// that hold the images and their thumbnails.
#[derive(Debug)]
pub struct Store {
    pub boards: Vec<Board>,
    pub posts: Vec<Post>,
    pub replies: Vec<ReplyEdge>,
    pub images: Vec<Image>,
    pub originals: Vec<StoredFile>,
    pub thumbnails: Vec<StoredFile>,
    pub bans: Vec<Ban>,
    pub captchas: Vec<Challenge>,
    pub users: Vec<User>,
    pub sessions: Vec<Session>,
}

/// Whether a board of that name exists.
pub open spec fn has_board(boards: Seq<Board>, name: Seq<char>) -> bool {
    exists|i: int| 0 <= i < boards.len() && (#[trigger] boards[i]).name@ == name
}

/// Whether the board has a post of that id.
pub open spec fn has_post(posts: Seq<Post>, board: Seq<char>, id: i32) -> bool {
    exists|i: int|
        0 <= i < posts.len() && (#[trigger] posts[i]).board@ == board && posts[i].id == id
}

/// Whether the board has a post of that id in that thread.
pub open spec fn has_member(posts: Seq<Post>, board: Seq<char>, id: i32, thread: i32) -> bool {
    exists|i: int|
        0 <= i < posts.len() && (#[trigger] posts[i]).board@ == board && posts[i].id == id
            && posts[i].thread == thread
}

/// Whether the board has a thread of that id: a post that opens it.
pub open spec fn has_root(posts: Seq<Post>, board: Seq<char>, id: i32) -> bool {
    has_member(posts, board, id, id)
}

/// Whether an image of that digest is recorded.
pub open spec fn has_image(images: Seq<Image>, hash: Uuid) -> bool {
    exists|i: int| 0 <= i < images.len() && (#[trigger] images[i]).hash == hash
}

/// Whether a file is kept under that digest.
pub open spec fn has_file(files: Seq<StoredFile>, hash: Uuid) -> bool {
    exists|i: int| 0 <= i < files.len() && (#[trigger] files[i]).hash == hash
}

/// Whether a captcha of that token waits for its answer.
pub open spec fn has_challenge(captchas: Seq<Challenge>, id: Uuid) -> bool {
    exists|i: int| 0 <= i < captchas.len() && (#[trigger] captchas[i]).id == id
}

/// The ids of the posts of one board, in the order in which they were made.
pub open spec fn ids_on(posts: Seq<Post>, board: Seq<char>) -> Seq<i32>
    decreases posts.len(),
{
    if posts.len() == 0 {
        Seq::empty()
    } else if posts.last().board@ == board {
        ids_on(posts.drop_last(), board).push(posts.last().id)
    } else {
        ids_on(posts.drop_last(), board)
    }
}

/// The numbers from 1 to `n`.
pub open spec fn counting(n: int) -> Seq<i32> {
    Seq::new(n as nat, |k: int| (k + 1) as i32)
}

/// The boards stand in the order of their names, so that no two share a
/// name, and no counter is negative.
pub open spec fn boards_wf(boards: Seq<Board>) -> bool {
    &&& forall|i: int, j: int|
        0 <= i < j < boards.len() ==> (#[trigger] boards[i]).name@ != (#[trigger] boards[j]).name@
    &&& forall|i: int| 0 <= i < boards.len() ==> (#[trigger] boards[i]).next_post_id >= 0
    &&& forall|i: int, j: int|
        0 <= i < j < boards.len() ==> text_lt(
            (#[trigger] boards[i]).name@,
            (#[trigger] boards[j]).name@,
        )
}

/// The posts of each board carry the numbers from 1 to the board's
/// counter, in the order in which they were made; every post is on a board
/// that exists, in a thread that exists, and its image is recorded.
pub open spec fn posts_wf(boards: Seq<Board>, posts: Seq<Post>, images: Seq<Image>) -> bool {
    &&& forall|b: int|
        0 <= b < boards.len() ==> ids_on(posts, (#[trigger] boards[b]).name@) == counting(
            boards[b].next_post_id as int,
        )
    &&& forall|j: int| 0 <= j < posts.len() ==> has_board(boards, (#[trigger] posts[j]).board@)
    &&& forall|j: int|
        0 <= j < posts.len() ==> has_root(posts, (#[trigger] posts[j]).board@, posts[j].thread)
    &&& forall|j: int|
        0 <= j < posts.len() && (#[trigger] posts[j]).image is Some ==> has_image(
            images,
            posts[j].image->0,
        )
}

/// Both ends of every edge of the reply graph exist.
pub open spec fn replies_wf(posts: Seq<Post>, replies: Seq<ReplyEdge>) -> bool {
    forall|e: int|
        0 <= e < replies.len() ==> has_post(
            posts,
            (#[trigger] replies[e]).message_board@,
            replies[e].message_id,
        ) && has_member(
            posts,
            replies[e].reply.reply_board@,
            replies[e].reply.reply_id,
            replies[e].reply.reply_thread,
        )
}

/// Every recorded image has its original and its thumbnail on file, and no
/// digest is recorded twice.
pub open spec fn images_wf(
    images: Seq<Image>,
    originals: Seq<StoredFile>,
    thumbnails: Seq<StoredFile>,
) -> bool {
    &&& forall|k: int|
        0 <= k < images.len() ==> has_file(originals, (#[trigger] images[k]).hash) && has_file(
            thumbnails,
            images[k].hash,
        )
    &&& forall|i: int, j: int|
        0 <= i < j < images.len() ==> (#[trigger] images[i]).hash != (#[trigger] images[j]).hash
}

/// No two waiting captchas share a token.
pub open spec fn captchas_wf(captchas: Seq<Challenge>) -> bool {
    forall|i: int, j: int|
        0 <= i < j < captchas.len() ==> (#[trigger] captchas[i]).id != (#[trigger] captchas[j]).id
}

impl Store {
    /// The invariant of the store.
    pub open spec fn wf(self) -> bool {
        &&& boards_wf(self.boards@)
        &&& posts_wf(self.boards@, self.posts@, self.images@)
        &&& replies_wf(self.posts@, self.replies@)
        &&& images_wf(self.images@, self.originals@, self.thumbnails@)
        &&& captchas_wf(self.captchas@)
    }

    /// A store that holds nothing.
    pub fn new() -> (store: Store)
        ensures
            store.wf(),
            store.boards@.len() == 0,
            store.posts@.len() == 0,
            store.replies@.len() == 0,
            store.images@.len() == 0,
            store.originals@.len() == 0,
            store.thumbnails@.len() == 0,
            store.bans@.len() == 0,
            store.captchas@.len() == 0,
            store.users@.len() == 0,
            store.sessions@.len() == 0,
    {
        Store {
            boards: Vec::new(),
            posts: Vec::new(),
            replies: Vec::new(),
            images: Vec::new(),
            originals: Vec::new(),
            thumbnails: Vec::new(),
            bans: Vec::new(),
            captchas: Vec::new(),
            users: Vec::new(),
            sessions: Vec::new(),
        }
    }

    /// The place of the board of that name.
    pub fn find_board(&self, name: &str) -> (place: Option<usize>)
        ensures
            match place {
                Some(i) => i < self.boards@.len() && self.boards@[i as int].name@ == name@,
                None => !has_board(self.boards@, name@),
            },
    {
        let mut i: usize = 0;
        while i < self.boards.len()
            invariant
                i <= self.boards@.len(),
                forall|j: int| 0 <= j < i ==> (#[trigger] self.boards@[j]).name@ != name@,
            decreases self.boards@.len() - i,
        {
            if same_text(self.boards[i].name.as_str(), name) {
                return Some(i);
            }
            i += 1;
        }
        None
    }

    /// The place of the post of that id on that board, in that thread if
    /// one is given.
    pub fn find_post(&self, board: &str, id: i32, thread: Option<i32>) -> (place: Option<usize>)
        ensures
            match place {
                Some(i) => i < self.posts@.len() && self.posts@[i as int].board@ == board@
                    && self.posts@[i as int].id == id && (thread is Some
                    ==> self.posts@[i as int].thread == thread->0),
                None => match thread {
                    Some(t) => !has_member(self.posts@, board@, id, t),
                    None => !has_post(self.posts@, board@, id),
                },
            },
    {
        let mut i: usize = 0;
        while i < self.posts.len()
            invariant
                i <= self.posts@.len(),
                forall|j: int|
                    0 <= j < i ==> !((#[trigger] self.posts@[j]).board@ == board@
                        && self.posts@[j].id == id && (thread is Some ==> self.posts@[j].thread
                        == thread->0)),
            decreases self.posts@.len() - i,
        {
            let post = &self.posts[i];
            let fits = match thread {
                Some(t) => post.thread == t,
                None => true,
            };
            if post.id == id && fits && same_text(post.board.as_str(), board) {
                return Some(i);
            }
            i += 1;
        }
        None
    }

    /// Whether an image of that digest is recorded.
    pub fn knows_image(&self, hash: Uuid) -> (known: bool)
        ensures
            known == has_image(self.images@, hash),
    {
        let mut i: usize = 0;
        while i < self.images.len()
            invariant
                i <= self.images@.len(),
                forall|j: int| 0 <= j < i ==> (#[trigger] self.images@[j]).hash != hash,
            decreases self.images@.len() - i,
        {
            if self.images[i].hash.0 == hash.0 {
                return true;
            }
            i += 1;
        }
        false
    }
}

/// A post that was there stays there when another is added.
pub proof fn lemma_push_keeps_member(
    posts: Seq<Post>,
    post: Post,
    board: Seq<char>,
    id: i32,
    thread: i32,
)
    requires
        has_member(posts, board, id, thread),
    ensures
        has_member(posts.push(post), board, id, thread),
        has_post(posts.push(post), board, id),
{
    let i = choose|i: int|
        0 <= i < posts.len() && (#[trigger] posts[i]).board@ == board && posts[i].id == id
            && posts[i].thread == thread;
    assert(posts.push(post)[i] == posts[i]);
}

/// A post that was there stays there when another is added.
pub proof fn lemma_push_keeps_post(posts: Seq<Post>, post: Post, board: Seq<char>, id: i32)
    requires
        has_post(posts, board, id),
    ensures
        has_post(posts.push(post), board, id),
{
    let i = choose|i: int|
        0 <= i < posts.len() && (#[trigger] posts[i]).board@ == board && posts[i].id == id;
    assert(posts.push(post)[i] == posts[i]);
}

/// The ids of a board after one more post.
pub proof fn lemma_ids_on_push(posts: Seq<Post>, post: Post, board: Seq<char>)
    ensures
        ids_on(posts.push(post), board) == if post.board@ == board {
            ids_on(posts, board).push(post.id)
        } else {
            ids_on(posts, board)
        },
{
    assert(posts.push(post).drop_last() == posts);
}

/// A board without posts has no ids.
pub proof fn lemma_ids_on_absent(posts: Seq<Post>, board: Seq<char>)
    requires
        forall|j: int| 0 <= j < posts.len() ==> (#[trigger] posts[j]).board@ != board,
    ensures
        ids_on(posts, board) == Seq::<i32>::empty(),
    decreases posts.len(),
{
    if posts.len() > 0 {
        let rest = posts.drop_last();
        lemma_ids_on_absent(rest, board);
    }
}

} // verus!
