use vstd::prelude::*;
use crate::errors::{DbError, Error};
use crate::models::Board;
use crate::store::{counting, has_board, ids_on, lemma_ids_on_absent, Store};
use crate::text::{
    lemma_text_lt_total, lemma_text_lt_transitive, text_before, text_lt,
};

verus! {

impl Store {
    /// Whether `after` is this store with one more board, of that name and
    /// title and without posts. Nothing else differs.
    pub open spec fn with_board(self, after: Store, name: Seq<char>, title: Seq<char>) -> bool {
        &&& exists|place: int|
            0 <= place < after.boards@.len() && (#[trigger] after.boards@[place]).name@ == name
                && after.boards@[place].title@ == title && after.boards@[place].next_post_id == 0
                && after.boards@.remove(place) == self.boards@
        &&& after.posts == self.posts
        &&& after.replies == self.replies
        &&& after.images == self.images
        &&& after.originals == self.originals
        &&& after.thumbnails == self.thumbnails
        &&& after.bans == self.bans
        &&& after.captchas == self.captchas
        &&& after.users == self.users
        &&& after.sessions == self.sessions
    }
}

impl Board {
    /// All boards, in the order of their names.
    pub fn get_all(store: &Store) -> (all: Vec<&Board>)
        requires
            store.wf(),
        ensures
            all@.len() == store.boards@.len(),
            forall|i: int| 0 <= i < all@.len() ==> *(#[trigger] all@[i]) == store.boards@[i],
            forall|i: int, j: int|
                0 <= i < j < all@.len() ==> text_lt(
                    (#[trigger] all@[i]).name@,
                    (#[trigger] all@[j]).name@,
                ),
    {
        let mut all: Vec<&Board> = Vec::new();
        let mut i: usize = 0;
        while i < store.boards.len()
            invariant
                i <= store.boards@.len(),
                all@.len() == i,
                forall|j: int| 0 <= j < i ==> *(#[trigger] all@[j]) == store.boards@[j],
            decreases store.boards@.len() - i,
        {
            all.push(&store.boards[i]);
            i += 1;
        }
        all
    }

    /// The board of that name, if there is one.
    pub fn get<'a>(name: &str, store: &'a Store) -> (board: Option<&'a Board>)
        ensures
            board is Some <==> has_board(store.boards@, name@),
            board is Some ==> board->0.name@ == name@ && store.boards@.contains(*board->0),
    {
        match store.find_board(name) {
            Some(place) => {
                Some(&store.boards[place])
            },
            None => None,
        }
    }

    /// Makes a board without posts. A name that is taken is refused and
    /// leaves the store as it was.
    pub fn create(name: &str, title: &str, store: &mut Store) -> (out: Result<(), Error>)
        requires
            old(store).wf(),
        ensures
            final(store).wf(),
            match out {
                Ok(_) => !has_board(old(store).boards@, name@) && old(store).with_board(
                    *final(store),
                    name@,
                    title@,
                ),
                Err(e) => has_board(old(store).boards@, name@) && e == Error::Db(
                    DbError::ConstraintViolation,
                ) && *final(store) == *old(store),
            },
    {
        if store.find_board(name).is_some() {
            return Err(Error::Db(DbError::ConstraintViolation));
        }
        let mut place: usize = 0;
        while place < store.boards.len() && text_before(store.boards[place].name.as_str(), name)
            invariant
                place <= store.boards@.len(),
                *store == *old(store),
                forall|j: int|
                    0 <= j < place ==> text_lt((#[trigger] store.boards@[j]).name@, name@),
            decreases store.boards@.len() - place,
        {
            place += 1;
        }
        let ghost before = *store;
        let board = Board {
            name: String::from_str(name),
            title: String::from_str(title),
            next_post_id: 0,
        };
        store.boards.insert(place, board);
        proof {
            let was = before.boards@;
            let now = store.boards@;
            let p = place as int;
            assert(now[p] == board);
            assert(now.remove(p) =~= was);
            if p < was.len() {
                lemma_text_lt_total(was[p].name@, name@);
            }
            assert forall|j: int| p <= j < was.len() implies text_lt(
                name@,
                (#[trigger] was[j]).name@,
            ) by {
                if p < j {
                    lemma_text_lt_transitive(name@, was[p].name@, was[j].name@);
                }
            }
            let posts = store.posts@;
            lemma_ids_on_absent(posts, name@);
            assert forall|b: int| 0 <= b < now.len() implies ids_on(
                posts,
                (#[trigger] now[b]).name@,
            ) == counting(now[b].next_post_id as int) by {}
        }
        Ok(())
    }
}

} // verus!
