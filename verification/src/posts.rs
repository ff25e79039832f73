use vstd::prelude::*;
use crate::errors::{DbError, Error};
use crate::ident::Uuid;
use crate::markup::{
    candidates, link_replies, linked, reply_candidates, style, styled, EMPTY_CONTENT,
};
use crate::models::{Board, Image, Post, Reply, ReplyEdge};
use crate::net::IpNetwork;
use crate::store::{
    counting, has_board, has_image, has_member, has_post, has_root, ids_on, lemma_ids_on_push,
    lemma_push_keeps_member, lemma_push_keeps_post, Store,
};
use crate::text::{owned, same_text, str_of, text_of};

verus! {

/// For each post of the board whose id is among `ids`, in the order in
/// which the posts were made, its id and the id of its thread.
pub open spec fn found_rows(posts: Seq<Post>, board: Seq<char>, ids: Seq<i32>) -> Seq<(i32, i32)>
    decreases posts.len(),
{
    if posts.len() == 0 {
        Seq::empty()
    } else {
        let post = posts.last();
        let rest = found_rows(posts.drop_last(), board, ids);
        if post.board@ == board && ids.contains(post.id) {
            rest.push((post.id, post.thread))
        } else {
            rest
        }
    }
}

/// The ids of a run of rows.
pub open spec fn row_ids(rows: Seq<(i32, i32)>) -> Seq<i32> {
    Seq::new(rows.len(), |i: int| rows[i].0)
}

/// The rendered form of a text body on a board that holds `posts`: the
/// HTML, and the ids of the posts that the text refers to and that exist.
/// An absent or empty body gives the empty content block and no ids.
pub open spec fn rendered(body: Option<Seq<char>>, board: Seq<char>, posts: Seq<Post>) -> (
    Seq<char>,
    Seq<i32>,
) {
    match body {
        Some(text) => if text.len() == 0 {
            (EMPTY_CONTENT@, Seq::empty())
        } else {
            let html = styled(text);
            let rows = found_rows(posts, board, candidates(html));
            (linked(html, board, rows), row_ids(rows))
        },
        None => (EMPTY_CONTENT@, Seq::empty()),
    }
}

/// Every row that was found is a post of the board.
pub proof fn lemma_found_rows_exist(posts: Seq<Post>, board: Seq<char>, ids: Seq<i32>, k: int)
    requires
        0 <= k < found_rows(posts, board, ids).len(),
    ensures
        has_member(
            posts,
            board,
            found_rows(posts, board, ids)[k].0,
            found_rows(posts, board, ids)[k].1,
        ),
        ids.contains(found_rows(posts, board, ids)[k].0),
    decreases posts.len(),
{
    let before = posts.drop_last();
    let rest = found_rows(before, board, ids);
    if k < rest.len() {
        lemma_found_rows_exist(before, board, ids, k);
    }
}

/// Only posts that exist are recorded as referred to: every id that
/// rendering returns is named by a reply marker of the text and is the id
/// of a post of the board.
pub proof fn rendered_targets_exist(
    body: Option<Seq<char>>,
    board: Seq<char>,
    posts: Seq<Post>,
    k: int,
)
    requires
        0 <= k < rendered(body, board, posts).1.len(),
    ensures
        has_post(posts, board, rendered(body, board, posts).1[k]),
        candidates(styled(body->0)).contains(rendered(body, board, posts).1[k]),
{
    lemma_found_rows_exist(posts, board, candidates(styled(body->0)), k);
}

fn contains_id(ids: &Vec<i32>, id: i32) -> (found: bool)
    ensures
        found == ids@.contains(id),
{
    let mut i: usize = 0;
    while i < ids.len()
        invariant
            i <= ids.len(),
            forall|j: int| 0 <= j < i ==> ids@[j] != id,
        decreases ids.len() - i,
    {
        if ids[i] == id {
            return true;
        }
        i += 1;
    }
    false
}

fn ids_of_rows(rows: &Vec<(i32, i32)>) -> (ids: Vec<i32>)
    ensures
        ids@ == row_ids(rows@),
{
    let mut ids: Vec<i32> = Vec::new();
    let mut i: usize = 0;
    while i < rows.len()
        invariant
            i <= rows.len(),
            ids@.len() == i,
            forall|j: int| 0 <= j < i ==> ids@[j] == rows@[j].0,
        decreases rows.len() - i,
    {
        ids.push(rows[i].0);
        i += 1;
    }
    ids
}

impl Store {
    /// Looks up which of the given ids are posts of the board.
    pub fn lookup(&self, board: &str, ids: &Vec<i32>) -> (rows: Vec<(i32, i32)>)
        ensures
            rows@ == found_rows(self.posts@, board@, ids@),
    {
        let mut rows: Vec<(i32, i32)> = Vec::new();
        let mut i: usize = 0;
        while i < self.posts.len()
            invariant
                i <= self.posts@.len(),
                rows@ == found_rows(self.posts@.take(i as int), board@, ids@),
            decreases self.posts@.len() - i,
        {
            proof {
                let upto = self.posts@.take(i + 1);
                assert(upto.drop_last() == self.posts@.take(i as int));
            }
            let post = &self.posts[i];
            if same_text(post.board.as_str(), board) && contains_id(ids, post.id) {
                rows.push((post.id, post.thread));
            }
            i += 1;
        }
        proof {
            assert(self.posts@.take(i as int) == self.posts@);
        }
        rows
    }
}

/// Whether `post` is the post that a request with these fields makes.
pub open spec fn is_new_post(
    post: Post,
    before: Seq<Post>,
    id: i32,
    thread: i32,
    board: Seq<char>,
    title: Option<Seq<char>>,
    author: Option<Seq<char>>,
    email: Option<Seq<char>>,
    sage: bool,
    content: Option<Seq<char>>,
    ip: IpNetwork,
    image: Option<Uuid>,
    now: i64,
) -> bool {
    &&& post.id == id
    &&& post.thread == thread
    &&& post.board@ == board
    &&& text_of(post.title) == title
    &&& text_of(post.author) == author
    &&& text_of(post.email) == email
    &&& post.sage == sage
    &&& text_of(post.plaintext_content) == content
    &&& post.html_content@ == rendered(content, board, before).0
    &&& post.posted_at == now
    &&& post.ip == ip
    &&& post.image == image
}

/// Whether `edge` says that the post `id` of `thread` refers to the post
/// `message` of the same board.
pub open spec fn is_edge(
    edge: ReplyEdge,
    message: i32,
    board: Seq<char>,
    id: i32,
    thread: i32,
) -> bool {
    &&& edge.message_id == message
    &&& edge.message_board@ == board
    &&& edge.reply.reply_id == id
    &&& edge.reply.reply_board@ == board
    &&& edge.reply.reply_thread == thread
}

impl Store {
    /// Whether `after` is this store with one more post on `board`: the
    /// board's counter has gone up by one to `id`, the post stands last
    /// with that id, and an edge has been added for each post that its text
    /// refers to. Nothing else differs.
    pub open spec fn posted(
        self,
        after: Store,
        id: i32,
        thread: i32,
        board: Seq<char>,
        title: Option<Seq<char>>,
        author: Option<Seq<char>>,
        email: Option<Seq<char>>,
        sage: bool,
        content: Option<Seq<char>>,
        ip: IpNetwork,
        image: Option<Uuid>,
        now: i64,
    ) -> bool {
        let targets = rendered(content, board, self.posts@).1;
        &&& after.boards@.len() == self.boards@.len()
        &&& forall|b: int|
            0 <= b < self.boards@.len() ==> (#[trigger] after.boards@[b]).name@
                == self.boards@[b].name@ && after.boards@[b].title@ == self.boards@[b].title@
                && after.boards@[b].next_post_id == if self.boards@[b].name@ == board {
                id
            } else {
                self.boards@[b].next_post_id
            }
        &&& forall|b: int|
            0 <= b < self.boards@.len() && (#[trigger] self.boards@[b]).name@ == board ==> id
                == self.boards@[b].next_post_id + 1
        &&& after.posts@.len() == self.posts@.len() + 1
        &&& after.posts@.drop_last() == self.posts@
        &&& is_new_post(
            after.posts@.last(),
            self.posts@,
            id,
            thread,
            board,
            title,
            author,
            email,
            sage,
            content,
            ip,
            image,
            now,
        )
        &&& after.replies@.len() == self.replies@.len() + targets.len()
        &&& after.replies@.take(self.replies@.len() as int) == self.replies@
        &&& forall|k: int|
            0 <= k < targets.len() ==> is_edge(
                #[trigger] after.replies@[self.replies@.len() + k],
                targets[k],
                board,
                id,
                thread,
            )
        &&& after.images == self.images
        &&& after.originals == self.originals
        &&& after.thumbnails == self.thumbnails
        &&& after.bans == self.bans
        &&& after.captchas == self.captchas
        &&& after.users == self.users
        &&& after.sessions == self.sessions
    }
}

/// The styled form of a text body and the post ids that its reply markers
/// name, or nothing for a body that is absent or empty.
pub open spec fn prepared(body: Option<Seq<char>>) -> Option<(Seq<char>, Seq<i32>)> {
    match body {
        Some(text) => if text.len() == 0 {
            None
        } else {
            Some((styled(text), candidates(styled(text))))
        },
        None => None,
    }
}

/// The rendered form of a styled body, given the rows of the posts that
/// its reply markers name and that exist: the HTML and the ids of the rows.
/// Without a body it is the empty content block and no ids.
pub open spec fn finished(html: Option<Seq<char>>, board: Seq<char>, rows: Seq<(i32, i32)>) -> (
    Seq<char>,
    Seq<i32>,
) {
    match html {
        Some(text) => (linked(text, board, rows), row_ids(rows)),
        None => (EMPTY_CONTENT@, Seq::empty()),
    }
}

impl Post {
    /// The first half of rendering: styles a text body and finds the post
    /// ids that its reply markers name, to be looked up on the board.
    pub fn prepare(body: Option<&str>) -> (out: Option<(String, Vec<i32>)>)
        ensures
            match (out, prepared(str_of(body))) {
                (Some(have), Some(want)) => have.0@ == want.0 && have.1@ == want.1,
                (None, None) => true,
                _ => false,
            },
    {
        match body {
            Some(text) => {
                if text.is_empty() {
                    None
                } else {
                    let html = style(text);
                    let wanted = reply_candidates(html.as_str());
                    Some((html, wanted))
                }
            },
            None => None,
        }
    }

    /// The second half of rendering: links the reply markers of a styled
    /// body to the rows that were found for them.
    pub fn finish(html: Option<&str>, board: &str, rows: &Vec<(i32, i32)>) -> (out: (
        String,
        Vec<i32>,
    ))
        ensures
            out.0@ == finished(str_of(html), board@, rows@).0,
            out.1@ == finished(str_of(html), board@, rows@).1,
    {
        match html {
            Some(text) => (link_replies(text, board, rows), ids_of_rows(rows)),
            None => (String::from_str(EMPTY_CONTENT), Vec::new()),
        }
    }

    /// Renders a text body for a board: escapes it, marks quotations, bold
    /// and italic spans, and turns each reply marker that names a post of
    /// the board into a link. Returns the HTML and the ids of the posts
    /// that were linked.
    pub fn html_body(body: Option<&str>, board: &str, store: &Store) -> (out: (String, Vec<i32>))
        ensures
            out.0@ == rendered(str_of(body), board@, store.posts@).0,
            out.1@ == rendered(str_of(body), board@, store.posts@).1,
    {
        match Post::prepare(body) {
            Some((html, wanted)) => {
                let rows = store.lookup(board, &wanted);
                Post::finish(Some(html.as_str()), board, &rows)
            },
            None => Post::finish(None, board, &Vec::new()),
        }
    }

    /// Puts a post together from its fields and its rendered text. A post
    /// for which no thread is named opens its own.
    pub fn compose(
        id: i32,
        thread: Option<i32>,
        board: &str,
        title: Option<&str>,
        author: Option<&str>,
        email: Option<&str>,
        sage: bool,
        content: Option<&str>,
        html: String,
        ip: IpNetwork,
        image: Option<Uuid>,
        now: i64,
    ) -> (post: Post)
        ensures
            post.id == id,
            post.thread == match thread {
                Some(named) => named,
                None => id,
            },
            post.board@ == board@,
            text_of(post.title) == str_of(title),
            text_of(post.author) == str_of(author),
            text_of(post.email) == str_of(email),
            post.sage == sage,
            text_of(post.plaintext_content) == str_of(content),
            post.html_content@ == html@,
            post.posted_at == now,
            post.ip == ip,
            post.image == image,
    {
        Post {
            id,
            board: String::from_str(board),
            title: owned(title),
            author: owned(author),
            email: owned(email),
            sage,
            plaintext_content: owned(content),
            html_content: html,
            posted_at: now,
            thread: match thread {
                Some(named) => named,
                None => id,
            },
            ip,
            image,
        }
    }
}

impl ReplyEdge {
    /// The edge that says that the post `id` of `thread` refers to the
    /// post `message` of the same board.
    pub fn new(message: i32, board: &str, id: i32, thread: i32) -> (edge: ReplyEdge)
        ensures
            is_edge(edge, message, board@, id, thread),
    {
        ReplyEdge {
            message_id: message,
            message_board: String::from_str(board),
            reply: Reply {
                reply_id: id,
                reply_board: String::from_str(board),
                reply_thread: thread,
            },
        }
    }
}

/// The counter of the board of that name.
pub open spec fn board_counter(boards: Seq<Board>, name: Seq<char>) -> i32 {
    let b = choose|b: int| 0 <= b < boards.len() && (#[trigger] boards[b]).name@ == name;
    boards[b].next_post_id
}

impl Store {
    /// Why a post is refused, if it is: the board does not exist; its
    /// counter is at its end; the thread that a reply names does not
    /// exist; or the image is not recorded.
    pub open spec fn refusal(
        self,
        board: Seq<char>,
        thread: Option<i32>,
        image: Option<Uuid>,
    ) -> Option<Error> {
        if !has_board(self.boards@, board) {
            Some(Error::NotFound)
        } else if board_counter(self.boards@, board) == i32::MAX {
            Some(Error::Db(DbError::OutOfRange))
        } else if thread is Some && !has_root(self.posts@, board, thread->0) {
            Some(Error::Db(DbError::ConstraintViolation))
        } else if image is Some && !has_image(self.images@, image->0) {
            Some(Error::Db(DbError::ConstraintViolation))
        } else {
            None
        }
    }
}

/// A store stays well formed when a post is added to a board that exists,
/// in a thread that exists or that it opens itself, with an image that is
/// recorded.
pub proof fn lemma_posted_keeps_wf(
    before: Store,
    after: Store,
    id: i32,
    thread: i32,
    board: Seq<char>,
    title: Option<Seq<char>>,
    author: Option<Seq<char>>,
    email: Option<Seq<char>>,
    sage: bool,
    content: Option<Seq<char>>,
    ip: IpNetwork,
    image: Option<Uuid>,
    now: i64,
)
    requires
        before.wf(),
        before.posted(
            after,
            id,
            thread,
            board,
            title,
            author,
            email,
            sage,
            content,
            ip,
            image,
            now,
        ),
        has_board(before.boards@, board),
        thread == id || has_root(before.posts@, board, thread),
        image is Some ==> has_image(before.images@, image->0),
    ensures
        after.wf(),
{
    let old_posts = before.posts@;
    let post = after.posts@.last();
    let new_posts = after.posts@;
    assert(new_posts =~= old_posts.push(post));
    assert forall|b: int| 0 <= b < after.boards@.len() implies ids_on(
        new_posts,
        (#[trigger] after.boards@[b]).name@,
    ) == counting(after.boards@[b].next_post_id as int) by {
        let name = before.boards@[b].name@;
        lemma_ids_on_push(old_posts, post, name);
    }
    assert forall|j: int| 0 <= j < new_posts.len() implies has_board(
        after.boards@,
        (#[trigger] new_posts[j]).board@,
    ) by {
        let name = new_posts[j].board@;
        let b = choose|b: int|
            0 <= b < before.boards@.len() && (#[trigger] before.boards@[b]).name@ == name;
        assert(after.boards@[b].name@ == name);
    }
    let targets = rendered(content, board, old_posts).1;
    let m = before.replies@.len() as int;
    assert forall|e: int| 0 <= e < after.replies@.len() implies has_post(
        new_posts,
        (#[trigger] after.replies@[e]).message_board@,
        after.replies@[e].message_id,
    ) && has_member(
        new_posts,
        after.replies@[e].reply.reply_board@,
        after.replies@[e].reply.reply_id,
        after.replies@[e].reply.reply_thread,
    ) by {
        let edge = after.replies@[e];
        if e < m {
            assert(after.replies@.take(m)[e] == edge);
            lemma_push_keeps_post(old_posts, post, edge.message_board@, edge.message_id);
            lemma_push_keeps_member(
                old_posts,
                post,
                edge.reply.reply_board@,
                edge.reply.reply_id,
                edge.reply.reply_thread,
            );
        } else {
            let k = e - m;
            assert(is_edge(after.replies@[m + k], targets[k], board, id, thread));
            let html = styled(content->0);
            let rows = found_rows(old_posts, board, candidates(html));
            lemma_found_rows_exist(old_posts, board, candidates(html), k);
            lemma_push_keeps_member(old_posts, post, board, rows[k].0, rows[k].1);
        }
    }
}

impl Store {
    /// Adds a post to a board, in the thread that is named or in a new one:
    /// takes the next id from the board's counter, renders the text
    /// against the posts that are there, and adds the post and an edge for
    /// each post that it refers to. A post that is refused leaves the store
    /// as it was.
    pub fn insert_post(
        &mut self,
        board: &str,
        thread: Option<i32>,
        title: Option<&str>,
        author: Option<&str>,
        email: Option<&str>,
        sage: bool,
        content: Option<&str>,
        ip: IpNetwork,
        image: Option<Uuid>,
        now: i64,
    ) -> (out: Result<i32, Error>)
        requires
            old(self).wf(),
        ensures
            final(self).wf(),
            match out {
                Ok(id) => old(self).refusal(board@, thread, image) is None && old(self).posted(
                    *final(self),
                    id,
                    if thread is Some {
                        thread->0
                    } else {
                        id
                    },
                    board@,
                    str_of(title),
                    str_of(author),
                    str_of(email),
                    sage,
                    str_of(content),
                    ip,
                    image,
                    now,
                ),
                Err(e) => old(self).refusal(board@, thread, image) == Some(e) && *final(self)
                    == *old(self),
            },
    {
        let place = match self.find_board(board) {
            Some(place) => place,
            None => {
                return Err(Error::NotFound);
            },
        };
        let counter = self.boards[place].next_post_id;
        if counter == i32::MAX {
            return Err(Error::Db(DbError::OutOfRange));
        }
        let id: i32 = counter + 1;
        let in_thread: i32 = match thread {
            Some(t) => {
                if self.find_post(board, t, Some(t)).is_none() {
                    return Err(Error::Db(DbError::ConstraintViolation));
                }
                t
            },
            None => id,
        };
        match image {
            Some(hash) => {
                if !self.knows_image(hash) {
                    return Err(Error::Db(DbError::ConstraintViolation));
                }
            },
            None => {},
        }
        let (html, targets) = Post::html_body(content, board, &*self);
        let post = Post::compose(
            id,
            thread,
            board,
            title,
            author,
            email,
            sage,
            content,
            html,
            ip,
            image,
            now,
        );
        let ghost before = *self;
        let entry = &self.boards[place];
        let bumped = Board {
            name: entry.name.clone(),
            title: entry.title.clone(),
            next_post_id: id,
        };
        self.boards.set(place, bumped);
        self.posts.push(post);
        let mut k: usize = 0;
        while k < targets.len()
            invariant
                k <= targets.len(),
                self.boards@ == before.boards@.update(place as int, bumped),
                self.posts@ == before.posts@.push(post),
                self.images == before.images,
                self.originals == before.originals,
                self.thumbnails == before.thumbnails,
                self.bans == before.bans,
                self.captchas == before.captchas,
                self.users == before.users,
                self.sessions == before.sessions,
                self.replies@.len() == before.replies@.len() + k,
                self.replies@.take(before.replies@.len() as int) == before.replies@,
                forall|j: int|
                    0 <= j < k ==> is_edge(
                        #[trigger] self.replies@[before.replies@.len() + j],
                        targets@[j],
                        board@,
                        id,
                        in_thread,
                    ),
            decreases targets.len() - k,
        {
            let edge = ReplyEdge::new(targets[k], board, id, in_thread);
            self.replies.push(edge);
            k += 1;
        }
        proof {
            assert(self.posts@.drop_last() =~= before.posts@);
            lemma_posted_keeps_wf(
                before,
                *self,
                id,
                in_thread,
                board@,
                str_of(title),
                str_of(author),
                str_of(email),
                sage,
                str_of(content),
                ip,
                image,
                now,
            );
        }
        Ok(id)
    }
}

impl Post {
    /// Opens a thread on a board: the new post takes the next id of the
    /// board and is its own thread.
    pub fn create_thread(
        board: &str,
        title: Option<&str>,
        author: Option<&str>,
        email: Option<&str>,
        sage: bool,
        content: Option<&str>,
        ip: IpNetwork,
        image: Image,
        now: i64,
        store: &mut Store,
    ) -> (out: Result<i32, Error>)
        requires
            old(store).wf(),
        ensures
            final(store).wf(),
            match out {
                Ok(id) => old(store).refusal(board@, None, Some(image.hash)) is None
                    && old(store).posted(
                    *final(store),
                    id,
                    id,
                    board@,
                    str_of(title),
                    str_of(author),
                    str_of(email),
                    sage,
                    str_of(content),
                    ip,
                    Some(image.hash),
                    now,
                ),
                Err(e) => old(store).refusal(board@, None, Some(image.hash)) == Some(e)
                    && *final(store) == *old(store),
            },
    {
        store.insert_post(
            board,
            None,
            title,
            author,
            email,
            sage,
            content,
            ip,
            Some(image.hash),
            now,
        )
    }

    /// Adds a reply to a thread of a board: the new post takes the next id
    /// of the board.
    pub fn create(
        board: &str,
        thread: i32,
        title: Option<&str>,
        author: Option<&str>,
        email: Option<&str>,
        sage: bool,
        content: Option<&str>,
        ip: IpNetwork,
        image: Option<Image>,
        now: i64,
        store: &mut Store,
    ) -> (out: Result<i32, Error>)
        requires
            old(store).wf(),
        ensures
            final(store).wf(),
            match out {
                Ok(id) => old(store).refusal(board@, Some(thread), image_hash(image)) is None
                    && old(store).posted(
                    *final(store),
                    id,
                    thread,
                    board@,
                    str_of(title),
                    str_of(author),
                    str_of(email),
                    sage,
                    str_of(content),
                    ip,
                    image_hash(image),
                    now,
                ),
                Err(e) => old(store).refusal(board@, Some(thread), image_hash(image)) == Some(e)
                    && *final(store) == *old(store),
            },
    {
        let hash = match image {
            Some(record) => Some(record.hash),
            None => None,
        };
        store.insert_post(board, Some(thread), title, author, email, sage, content, ip, hash, now)
    }
}

/// The digest of an optional image.
pub open spec fn image_hash(image: Option<Image>) -> Option<Uuid> {
    match image {
        Some(record) => Some(record.hash),
        None => None,
    }
}

} // verus!
