use vstd::prelude::*;
use crate::ident::Uuid;
use crate::invariants::lemma_ids_on_prefix;
use crate::models::StoredFile;
use crate::store::{
    boards_wf, captchas_wf, counting, has_board, has_file, has_image, has_member, has_post,
    has_root, ids_on, images_wf, lemma_ids_on_push, posts_wf, replies_wf, Store,
};
use crate::text::{
    lemma_text_lt_irreflexive, lemma_text_lt_transitive, same_text, text_before, text_lt,
};

verus! {

/// Whether a file is kept under that digest.
pub fn keeps_file(files: &Vec<StoredFile>, hash: Uuid) -> (kept: bool)
    ensures
        kept == has_file(files@, hash),
{
    let mut i: usize = 0;
    while i < files.len()
        invariant
            i <= files@.len(),
            forall|j: int| 0 <= j < i ==> (#[trigger] files@[j]).hash != hash,
        decreases files@.len() - i,
    {
        if files[i].hash.0 == hash.0 {
            return true;
        }
        i += 1;
    }
    false
}

impl Store {
    /// Whether the boards stand in the order of their names and no counter
    /// is negative.
    pub fn boards_valid(&self) -> (ok: bool)
        ensures
            ok == boards_wf(self.boards@),
    {
        let mut i: usize = 0;
        while i < self.boards.len()
            invariant
                i <= self.boards@.len(),
                boards_wf(self.boards@.take(i as int)),
            decreases self.boards@.len() - i,
        {
            let ghost all = self.boards@;
            let ghost next = all.take(i + 1);
            if self.boards[i].next_post_id < 0 {
                return false;
            }
            if i > 0 && !text_before(
                self.boards[i - 1].name.as_str(),
                self.boards[i].name.as_str(),
            ) {
                return false;
            }
            proof {
                assert forall|a: int, b: int| 0 <= a < b < next.len() implies text_lt(
                    (#[trigger] next[a]).name@,
                    (#[trigger] next[b]).name@,
                ) && next[a].name@ != next[b].name@ by {
                    if b >= i && a < i - 1 {
                        lemma_text_lt_transitive(next[a].name@, next[i - 1].name@, next[b].name@);
                    }
                    lemma_text_lt_irreflexive(next[a].name@);
                }
            }
            i += 1;
        }
        proof {
            assert(self.boards@.take(i as int) == self.boards@);
        }
        true
    }

    /// Whether the posts of the board at place `b` carry the numbers from 1
    /// to the board's counter, in the order in which they were made.
    pub fn numbering_valid(&self, b: usize) -> (ok: bool)
        requires
            b < self.boards@.len(),
            self.boards@[b as int].next_post_id >= 0,
        ensures
            ok == (ids_on(self.posts@, self.boards@[b as int].name@) == counting(
                self.boards@[b as int].next_post_id as int,
            )),
    {
        let name = self.boards[b].name.as_str();
        let counter = self.boards[b].next_post_id;
        let ghost all = ids_on(self.posts@, name@);
        let mut seen: i32 = 0;
        let mut i: usize = 0;
        while i < self.posts.len()
            invariant
                i <= self.posts@.len(),
                0 <= seen <= counter,
                name@ == self.boards@[b as int].name@,
                counter == self.boards@[b as int].next_post_id,
                all == ids_on(self.posts@, name@),
                ids_on(self.posts@.take(i as int), name@) == counting(seen as int),
            decreases self.posts@.len() - i,
        {
            let post = &self.posts[i];
            proof {
                assert(self.posts@.take(i + 1) == self.posts@.take(i as int).push(
                    self.posts@[i as int],
                ));
                lemma_ids_on_push(self.posts@.take(i as int), self.posts@[i as int], name@);
                lemma_ids_on_prefix(self.posts@, name@, i + 1);
            }
            if same_text(post.board.as_str(), name) {
                if seen == counter || post.id != seen + 1 {
                    proof {
                        let upto = ids_on(self.posts@.take(i + 1), name@);
                        assert(upto[seen as int] == post.id);
                    }
                    return false;
                }
                seen = seen + 1;
            }
            i += 1;
        }
        proof {
            assert(self.posts@.take(i as int) == self.posts@);
        }
        seen == counter
    }

    /// Whether the posts of each board are numbered from 1 to the board's
    /// counter, and every post is on a board that exists, in a thread that
    /// exists, with an image that is recorded.
    pub fn posts_valid(&self) -> (ok: bool)
        requires
            boards_wf(self.boards@),
        ensures
            ok == posts_wf(self.boards@, self.posts@, self.images@),
    {
        let mut b: usize = 0;
        while b < self.boards.len()
            invariant
                b <= self.boards@.len(),
                boards_wf(self.boards@),
                forall|a: int|
                    0 <= a < b ==> ids_on(self.posts@, (#[trigger] self.boards@[a]).name@)
                        == counting(self.boards@[a].next_post_id as int),
            decreases self.boards@.len() - b,
        {
            if !self.numbering_valid(b) {
                return false;
            }
            b += 1;
        }
        let mut j: usize = 0;
        while j < self.posts.len()
            invariant
                j <= self.posts@.len(),
                forall|a: int|
                    0 <= a < self.boards@.len() ==> ids_on(
                        self.posts@,
                        (#[trigger] self.boards@[a]).name@,
                    ) == counting(self.boards@[a].next_post_id as int),
                forall|i: int|
                    0 <= i < j ==> has_board(self.boards@, (#[trigger] self.posts@[i]).board@),
                forall|i: int|
                    0 <= i < j ==> has_root(
                        self.posts@,
                        (#[trigger] self.posts@[i]).board@,
                        self.posts@[i].thread,
                    ),
                forall|i: int|
                    0 <= i < j && (#[trigger] self.posts@[i]).image is Some ==> has_image(
                        self.images@,
                        self.posts@[i].image->0,
                    ),
            decreases self.posts@.len() - j,
        {
            let post = &self.posts[j];
            let board = post.board.as_str();
            if self.find_board(board).is_none() {
                return false;
            }
            if self.find_post(board, post.thread, Some(post.thread)).is_none() {
                return false;
            }
            match post.image {
                Some(hash) => {
                    if !self.knows_image(hash) {
                        return false;
                    }
                },
                None => {},
            }
            j += 1;
        }
        true
    }

    /// Whether both ends of every edge of the reply graph exist.
    pub fn replies_valid(&self) -> (ok: bool)
        ensures
            ok == replies_wf(self.posts@, self.replies@),
    {
        let mut e: usize = 0;
        while e < self.replies.len()
            invariant
                e <= self.replies@.len(),
                forall|i: int|
                    0 <= i < e ==> has_post(
                        self.posts@,
                        (#[trigger] self.replies@[i]).message_board@,
                        self.replies@[i].message_id,
                    ) && has_member(
                        self.posts@,
                        self.replies@[i].reply.reply_board@,
                        self.replies@[i].reply.reply_id,
                        self.replies@[i].reply.reply_thread,
                    ),
            decreases self.replies@.len() - e,
        {
            let edge = &self.replies[e];
            if self.find_post(edge.message_board.as_str(), edge.message_id, None).is_none() {
                return false;
            }
            if self.find_post(
                edge.reply.reply_board.as_str(),
                edge.reply.reply_id,
                Some(edge.reply.reply_thread),
            ).is_none() {
                return false;
            }
            e += 1;
        }
        true
    }

    /// Whether every recorded image has its two files, and no digest is
    /// recorded twice.
    pub fn images_valid(&self) -> (ok: bool)
        ensures
            ok == images_wf(self.images@, self.originals@, self.thumbnails@),
    {
        let mut k: usize = 0;
        while k < self.images.len()
            invariant
                k <= self.images@.len(),
                forall|i: int|
                    0 <= i < k ==> has_file(self.originals@, (#[trigger] self.images@[i]).hash)
                        && has_file(self.thumbnails@, self.images@[i].hash),
                forall|i: int, j: int|
                    0 <= i < j < k ==> (#[trigger] self.images@[i]).hash != (
                    #[trigger] self.images@[j]).hash,
            decreases self.images@.len() - k,
        {
            let hash = self.images[k].hash;
            if !keeps_file(&self.originals, hash) || !keeps_file(&self.thumbnails, hash) {
                return false;
            }
            let mut i: usize = 0;
            while i < k
                invariant
                    i <= k < self.images@.len(),
                    hash == self.images@[k as int].hash,
                    forall|a: int| 0 <= a < i ==> (#[trigger] self.images@[a]).hash != hash,
                decreases k - i,
            {
                if self.images[i].hash.0 == hash.0 {
                    return false;
                }
                i += 1;
            }
            k += 1;
        }
        true
    }

    /// Whether no two waiting captchas share a token.
    pub fn captchas_valid(&self) -> (ok: bool)
        ensures
            ok == captchas_wf(self.captchas@),
    {
        let mut k: usize = 0;
        while k < self.captchas.len()
            invariant
                k <= self.captchas@.len(),
                forall|i: int, j: int|
                    0 <= i < j < k ==> (#[trigger] self.captchas@[i]).id != (
                    #[trigger] self.captchas@[j]).id,
            decreases self.captchas@.len() - k,
        {
            let id = self.captchas[k].id;
            let mut i: usize = 0;
            while i < k
                invariant
                    i <= k < self.captchas@.len(),
                    id == self.captchas@[k as int].id,
                    forall|a: int| 0 <= a < i ==> (#[trigger] self.captchas@[a]).id != id,
                decreases k - i,
            {
                if self.captchas[i].id.0 == id.0 {
                    return false;
                }
                i += 1;
            }
            k += 1;
        }
        true
    }

    /// Whether the store is well formed.
    pub fn is_valid(&self) -> (ok: bool)
        ensures
            ok == self.wf(),
    {
        self.boards_valid() && self.posts_valid() && self.replies_valid() && self.images_valid()
            && self.captchas_valid()
    }
}

} // verus!
