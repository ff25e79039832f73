use vstd::prelude::*;
use crate::errors::{DbError, Error, STATUS_FORBIDDEN};
use crate::ident::{is_random_version, Uuid};
use crate::models::{Ban, Captcha, Challenge, NotBanned};
use crate::net::IpNetwork;
use crate::store::{has_challenge, Store};
use crate::text::{lowercase, lowercased, same_text, str_of};

verus! {

/// Whether a ban holds against an address at a time: the address lies in
/// the banned network, and the ban's duration has not run out.
pub open spec fn is_active(ban: Ban, ip: IpNetwork, now: i64) -> bool {
    ip.within(ban.ip) && ban.created_at + ban.duration > now
}

/// The place of the ban that is answered to an address: of the bans that
/// hold against it the one made last, and of several made at that time the
/// one that stands first.
pub open spec fn latest_ban(bans: Seq<Ban>, ip: IpNetwork, now: i64) -> Option<int>
    decreases bans.len(),
{
    if bans.len() == 0 {
        None
    } else {
        let rest = latest_ban(bans.drop_last(), ip, now);
        let last = bans.last();
        if is_active(last, ip, now) && (rest is None || bans[rest->0].created_at
            < last.created_at) {
            Some(bans.len() - 1)
        } else {
            rest
        }
    }
}

/// The ban that is answered holds against the address, no ban that holds
/// against it was made later, and none is answered only if none holds.
pub proof fn lemma_latest_ban(bans: Seq<Ban>, ip: IpNetwork, now: i64)
    ensures
        match latest_ban(bans, ip, now) {
            Some(at) => 0 <= at < bans.len() && is_active(bans[at], ip, now) && forall|i: int|
                0 <= i < bans.len() && is_active(#[trigger] bans[i], ip, now)
                    ==> bans[i].created_at <= bans[at].created_at,
            None => forall|i: int| 0 <= i < bans.len() ==> !is_active(#[trigger] bans[i], ip, now),
        },
    decreases bans.len(),
{
    if bans.len() > 0 {
        let before = bans.drop_last();
        lemma_latest_ban(before, ip, now);
        assert forall|i: int| 0 <= i < before.len() implies before[i] == bans[i] by {}
    }
}

/// A ban whose duration has run out holds against no address.
pub proof fn expired_ban_is_inactive(ban: Ban, ip: IpNetwork, now: i64)
    requires
        now >= ban.created_at + ban.duration,
    ensures
        !is_active(ban, ip, now),
{
}

impl Ban {
    /// Whether this ban holds against an address at a time.
    pub fn holds(&self, ip: &IpNetwork, now: i64) -> (active: bool)
        ensures
            active == is_active(*self, *ip, now),
    {
        let end: i128 = self.created_at as i128 + self.duration as i128;
        ip.is_within(&self.ip) && end > now as i128
    }

    /// Bans a network.
    pub fn create(ip: IpNetwork, reason: &str, created_at: i64, duration: i64, store: &mut Store)
        requires
            old(store).wf(),
        ensures
            final(store).wf(),
            final(store).bans@.len() == old(store).bans@.len() + 1,
            final(store).bans@.drop_last() == old(store).bans@,
            final(store).bans@.last().ip == ip,
            final(store).bans@.last().reason@ == reason@,
            final(store).bans@.last().created_at == created_at,
            final(store).bans@.last().duration == duration,
            final(store).boards == old(store).boards,
            final(store).posts == old(store).posts,
            final(store).replies == old(store).replies,
            final(store).images == old(store).images,
            final(store).originals == old(store).originals,
            final(store).thumbnails == old(store).thumbnails,
            final(store).captchas == old(store).captchas,
            final(store).users == old(store).users,
            final(store).sessions == old(store).sessions,
    {
        store.bans.push(Ban { ip, reason: String::from_str(reason), created_at, duration });
    }
}

impl NotBanned {
    /// Looks for a ban that holds against the address of a request. If
    /// there is one, the request is forbidden and the reason of the ban
    /// that was made last is answered.
    pub fn from_request(ip: IpNetwork, now: i64, store: &Store) -> (out: Result<
        NotBanned,
        (u16, Error),
    >)
        ensures
            match (out, latest_ban(store.bans@, ip, now)) {
                (Ok(_), None) => true,
                (Err((status, Error::Banned(reason))), Some(at)) => status == STATUS_FORBIDDEN
                    && 0 <= at < store.bans@.len() && reason@ == store.bans@[at].reason@,
                _ => false,
            },
            out is Ok <==> forall|i: int|
                0 <= i < store.bans@.len() ==> !is_active(#[trigger] store.bans@[i], ip, now),
    {
        let mut found: Option<usize> = None;
        let mut i: usize = 0;
        while i < store.bans.len()
            invariant
                i <= store.bans@.len(),
                match found {
                    Some(at) => at < i && latest_ban(store.bans@.take(i as int), ip, now) == Some(
                        at as int,
                    ),
                    None => latest_ban(store.bans@.take(i as int), ip, now) is None,
                },
            decreases store.bans@.len() - i,
        {
            proof {
                let upto = store.bans@.take(i + 1);
                assert(upto.drop_last() == store.bans@.take(i as int));
            }
            let ban = &store.bans[i];
            if ban.holds(&ip, now) {
                let later = match found {
                    Some(at) => store.bans[at].created_at < ban.created_at,
                    None => true,
                };
                if later {
                    found = Some(i);
                }
            }
            i += 1;
        }
        proof {
            assert(store.bans@.take(i as int) == store.bans@);
            lemma_latest_ban(store.bans@, ip, now);
        }
        match found {
            Some(at) => Err((STATUS_FORBIDDEN, Error::Banned(store.bans[at].reason.clone()))),
            None => Ok(NotBanned),
        }
    }
}

/// Whether some waiting captcha has a token that is marked as drawn at
/// random.
pub open spec fn holds_random_token(captchas: Seq<Challenge>) -> bool {
    exists|i: int| 0 <= i < captchas.len() && is_random_version((#[trigger] captchas[i]).id.0)
}

/// The solution of the captcha of that token, if it waits for its answer.
pub open spec fn solution_of(captchas: Seq<Challenge>, id: Uuid) -> Option<Seq<char>>
    decreases captchas.len(),
{
    if captchas.len() == 0 {
        None
    } else if captchas[0].id == id {
        Some(captchas[0].solution@)
    } else {
        solution_of(captchas.drop_first(), id)
    }
}

/// A captcha has a solution exactly while it waits for its answer.
pub proof fn lemma_solution_of(captchas: Seq<Challenge>, id: Uuid)
    ensures
        solution_of(captchas, id) is Some <==> has_challenge(captchas, id),
    decreases captchas.len(),
{
    if captchas.len() > 0 {
        let rest = captchas.drop_first();
        lemma_solution_of(rest, id);
        if captchas[0].id != id {
            if has_challenge(captchas, id) {
                let i = choose|i: int| 0 <= i < captchas.len() && (#[trigger] captchas[i]).id == id;
                assert(rest[i - 1] == captchas[i]);
            }
        }
    }
}

impl Store {
    /// Whether `after` is this store without the captcha of that token.
    /// Nothing else differs.
    pub open spec fn consumed(self, after: Store, id: Uuid) -> bool {
        &&& !has_challenge(after.captchas@, id)
        &&& if has_challenge(self.captchas@, id) {
            exists|at: int|
                0 <= at < self.captchas@.len() && (#[trigger] self.captchas@[at]).id == id
                    && after.captchas@ == self.captchas@.remove(at)
        } else {
            after.captchas == self.captchas
        }
        &&& after.boards == self.boards
        &&& after.posts == self.posts
        &&& after.replies == self.replies
        &&& after.images == self.images
        &&& after.originals == self.originals
        &&& after.thumbnails == self.thumbnails
        &&& after.bans == self.bans
        &&& after.users == self.users
        &&& after.sessions == self.sessions
    }

    /// Whether `after` is this store with one more captcha that waits for
    /// its answer. Nothing else differs.
    pub open spec fn issued(self, after: Store, id: Uuid, solution: Seq<char>) -> bool {
        &&& after.captchas@.len() == self.captchas@.len() + 1
        &&& after.captchas@.drop_last() == self.captchas@
        &&& after.captchas@.last().id == id
        &&& after.captchas@.last().solution@ == solution
        &&& after.boards == self.boards
        &&& after.posts == self.posts
        &&& after.replies == self.replies
        &&& after.images == self.images
        &&& after.originals == self.originals
        &&& after.thumbnails == self.thumbnails
        &&& after.bans == self.bans
        &&& after.users == self.users
        &&& after.sessions == self.sessions
    }

    /// The place of the captcha of that token.
    pub fn find_challenge(&self, id: Uuid) -> (place: Option<usize>)
        ensures
            match place {
                Some(at) => at < self.captchas@.len() && self.captchas@[at as int].id == id
                    && solution_of(self.captchas@, id) == Some(self.captchas@[at as int].solution@),
                None => !has_challenge(self.captchas@, id) && solution_of(self.captchas@, id)
                    is None,
            },
    {
        let mut i: usize = 0;
        assert(self.captchas@.skip(0) == self.captchas@);
        while i < self.captchas.len()
            invariant
                i <= self.captchas@.len(),
                forall|j: int| 0 <= j < i ==> (#[trigger] self.captchas@[j]).id != id,
                solution_of(self.captchas@, id) == solution_of(self.captchas@.skip(i as int), id),
            decreases self.captchas@.len() - i,
        {
            proof {
                let rest = self.captchas@.skip(i as int);
                assert(rest.drop_first() == self.captchas@.skip(i + 1));
            }
            if self.captchas[i].id.0 == id.0 {
                return Some(i);
            }
            i += 1;
        }
        None
    }
}

/// A captcha can be answered once: when an answer has been checked, right
/// or wrong, the captcha is gone, and a second answer finds nothing to be
/// checked against.
pub proof fn captcha_is_single_use(before: Store, after: Store, id: Uuid)
    requires
        before.consumed(after, id),
    ensures
        solution_of(after.captchas@, id) is None,
{
    lemma_solution_of(after.captchas@, id);
}

impl Captcha {
    /// Makes a captcha of a picture and the characters that it shows, under
    /// the given token: the solution is the characters in lower case. A
    /// token that is in use is refused.
    pub fn issue(id: Uuid, base64image: String, solution: String, store: &mut Store) -> (out:
        Result<Captcha, Error>)
        requires
            old(store).wf(),
        ensures
            final(store).wf(),
            match out {
                Ok(captcha) => !has_challenge(old(store).captchas@, id) && captcha.id == id
                    && captcha.base64image@ == base64image@ && captcha.solution@ == solution@
                    && old(store).issued(*final(store), id, solution@),
                Err(e) => has_challenge(old(store).captchas@, id) && e == Error::Db(
                    DbError::ConstraintViolation,
                ) && *final(store) == *old(store),
            },
    {
        if store.find_challenge(id).is_some() {
            return Err(Error::Db(DbError::ConstraintViolation));
        }
        let ghost before = store.captchas@;
        store.captchas.push(Challenge { id, solution: solution.clone() });
        proof {
            let now = store.captchas@;
            assert(now.drop_last() == before);
        }
        Ok(Captcha { id, base64image, solution })
    }

    /// Makes a captcha of a picture and the characters that it shows, under
    /// a fresh random token. It fails only where the token that was drawn
    /// is in use: never on a store in which no captcha with a random token
    /// waits for its answer.
    pub fn new(base64image: String, chars: &str, store: &mut Store) -> (out: Result<Captcha, Error>)
        requires
            old(store).wf(),
        ensures
            final(store).wf(),
            out is Err ==> holds_random_token(old(store).captchas@),
            match out {
                Ok(captcha) => !has_challenge(old(store).captchas@, captcha.id)
                    && captcha.base64image@ == base64image@ && captcha.solution@ == lowercased(
                    chars@,
                ) && old(store).issued(*final(store), captcha.id, lowercased(chars@)),
                Err(e) => e == Error::Db(DbError::ConstraintViolation) && *final(store) == *old(
                    store,
                ),
            },
    {
        let id = Uuid::random();
        let solution = lowercase(chars);
        Captcha::issue(id, base64image, solution, store)
    }

    /// Checks an answer that is in lower case against the captcha of that
    /// token, and removes the captcha whether or not the answer is right.
    /// Returns whether it was right; there is no right answer to a captcha
    /// that is not there.
    pub fn check(id: Uuid, lowered: &str, store: &mut Store) -> (right: bool)
        requires
            old(store).wf(),
        ensures
            final(store).wf(),
            right == (solution_of(old(store).captchas@, id) == Some(lowered@)),
            old(store).consumed(*final(store), id),
    {
        match store.find_challenge(id) {
            Some(at) => {
                let challenge = store.captchas.remove(at);
                same_text(challenge.solution.as_str(), lowered)
            },
            None => false,
        }
    }

    /// Whether an answer fits the solution of a captcha that was taken from
    /// the store, without regard to the answer's case. Nothing fits a
    /// captcha that was not there.
    pub fn answers(solution: Option<&str>, answer: &str) -> (right: bool)
        ensures
            right == (str_of(solution) == Some(lowercased(answer@))),
    {
        match solution {
            Some(text) => {
                let lowered = lowercase(answer);
                same_text(text, lowered.as_str())
            },
            None => false,
        }
    }

    /// Checks an answer against the captcha of that token, without regard
    /// to case, and removes the captcha whether or not the answer is right.
    pub fn verify(id: Uuid, answer: &str, store: &mut Store) -> (out: Result<bool, Error>)
        requires
            old(store).wf(),
        ensures
            final(store).wf(),
            out == Ok::<bool, Error>(
                solution_of(old(store).captchas@, id) == Some(lowercased(answer@)),
            ),
            old(store).consumed(*final(store), id),
    {
        let lowered = lowercase(answer);
        Ok(Captcha::check(id, lowered.as_str(), store))
    }

    /// The picture, in base 64.
    pub fn base64image(&self) -> (picture: &str)
        ensures
            picture@ == self.base64image@,
    {
        self.base64image.as_str()
    }

    /// The solution.
    pub fn solution(&self) -> (solution: &str)
        ensures
            solution@ == self.solution@,
    {
        self.solution.as_str()
    }

    /// The token.
    pub fn id(&self) -> (id: Uuid)
        ensures
            id == self.id,
    {
        self.id
    }
}

} // verus!
