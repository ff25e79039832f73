use vstd::prelude::*;
use crate::errors::{DbError, Error};
use crate::ident::{is_random_version, uuid_parsed, Uuid};
use crate::models::{AdminPrivilege, PrivelegeLevel, Session, User};
use crate::store::Store;

verus! {

/// Whether a user has that token.
pub open spec fn has_user(users: Seq<User>, id: Uuid) -> bool {
    exists|i: int| 0 <= i < users.len() && (#[trigger] users[i]).id == id
}

/// Whether some user has a token that is marked as drawn at random.
pub open spec fn holds_random_user(users: Seq<User>) -> bool {
    exists|i: int| 0 <= i < users.len() && is_random_version((#[trigger] users[i]).id.0)
}

/// The first session of that token, if there is one.
pub open spec fn session_of(sessions: Seq<Session>, id: Uuid) -> Option<Session>
    decreases sessions.len(),
{
    if sessions.len() == 0 {
        None
    } else if sessions[0].id == id {
        Some(sessions[0])
    } else {
        session_of(sessions.drop_first(), id)
    }
}

/// The privilege that a session token gives: that of the user who is
/// logged in under it.
pub open spec fn privilege_of(sessions: Seq<Session>, token: Option<Uuid>) -> Option<
    AdminPrivilege,
> {
    match token {
        Some(id) => match session_of(sessions, id) {
            Some(session) => Some(AdminPrivilege { uid: session.uid }),
            None => None,
        },
        None => None,
    }
}

/// The token that a cookie holds.
pub open spec fn token_of(cookie: Option<Seq<char>>) -> Option<Uuid> {
    match cookie {
        Some(text) => match uuid_parsed(text) {
            Some(value) => Some(Uuid(value)),
            None => None,
        },
        None => None,
    }
}

impl Store {
    /// Whether a user has that token.
    pub fn knows_user(&self, id: Uuid) -> (known: bool)
        ensures
            known == has_user(self.users@, id),
    {
        let mut i: usize = 0;
        while i < self.users.len()
            invariant
                i <= self.users@.len(),
                forall|j: int| 0 <= j < i ==> (#[trigger] self.users@[j]).id != id,
            decreases self.users@.len() - i,
        {
            if self.users[i].id.0 == id.0 {
                return true;
            }
            i += 1;
        }
        false
    }
}

impl User {
    /// Enrols a user under the given token. A token that is in use is
    /// refused.
    pub fn enroll(id: Uuid, name: &str, level: PrivelegeLevel, store: &mut Store) -> (out: Result<
        User,
        Error,
    >)
        requires
            old(store).wf(),
        ensures
            final(store).wf(),
            match out {
                Ok(user) => !has_user(old(store).users@, id) && user.id == id && user.name@
                    == name@ && user.level == level && final(store).users@.len() == old(
                    store,
                ).users@.len() + 1 && final(store).users@.drop_last() == old(store).users@
                    && final(store).users@.last().id == id && final(store).users@.last().name@
                    == name@ && final(store).users@.last().level == level,
                Err(e) => has_user(old(store).users@, id) && e == Error::Db(
                    DbError::ConstraintViolation,
                ) && final(store).users == old(store).users,
            },
            final(store).boards == old(store).boards,
            final(store).posts == old(store).posts,
            final(store).replies == old(store).replies,
            final(store).images == old(store).images,
            final(store).originals == old(store).originals,
            final(store).thumbnails == old(store).thumbnails,
            final(store).bans == old(store).bans,
            final(store).captchas == old(store).captchas,
            final(store).sessions == old(store).sessions,
    {
        if store.knows_user(id) {
            return Err(Error::Db(DbError::ConstraintViolation));
        }
        store.users.push(User { id, name: String::from_str(name), level });
        Ok(User { id, name: String::from_str(name), level })
    }

    /// Enrols a user under a fresh random token. It fails only where the
    /// token that was drawn is in use: never on a store in which no user
    /// has a random token.
    pub fn new(name: &str, level: PrivelegeLevel, store: &mut Store) -> (out: Result<User, Error>)
        requires
            old(store).wf(),
        ensures
            final(store).wf(),
            out is Err ==> holds_random_user(old(store).users@),
            match out {
                Ok(user) => !has_user(old(store).users@, user.id) && user.name@ == name@
                    && user.level == level && final(store).users@.len() == old(store).users@.len()
                    + 1 && final(store).users@.drop_last() == old(store).users@
                    && final(store).users@.last().id == user.id && final(store).users@.last().name@
                    == name@ && final(store).users@.last().level == level,
                Err(e) => e == Error::Db(DbError::ConstraintViolation) && final(store).users
                    == old(store).users,
            },
    {
        User::enroll(Uuid::random(), name, level, store)
    }
}

impl Session {
    /// The session of that token, if there is one.
    pub fn get(id: Uuid, store: &Store) -> (out: Result<Option<Session>, Error>)
        ensures
            out == Ok::<Option<Session>, Error>(session_of(store.sessions@, id)),
    {
        let mut i: usize = 0;
        assert(store.sessions@.skip(0) == store.sessions@);
        while i < store.sessions.len()
            invariant
                i <= store.sessions@.len(),
                session_of(store.sessions@, id) == session_of(store.sessions@.skip(i as int), id),
            decreases store.sessions@.len() - i,
        {
            proof {
                let rest = store.sessions@.skip(i as int);
                assert(rest.drop_first() == store.sessions@.skip(i + 1));
            }
            if store.sessions[i].id.0 == id.0 {
                return Ok(Some(store.sessions[i]));
            }
            i += 1;
        }
        Ok(None)
    }

    /// Logs a user in under the given token. The user must be enrolled.
    pub fn open(id: Uuid, uid: Uuid, now: i64, store: &mut Store) -> (out: Result<Session, Error>)
        requires
            old(store).wf(),
        ensures
            final(store).wf(),
            match out {
                Ok(session) => has_user(old(store).users@, uid) && session == (Session {
                    id,
                    uid,
                    logged_in_at: now,
                }) && final(store).sessions@ == old(store).sessions@.push(session),
                Err(e) => !has_user(old(store).users@, uid) && e == Error::Db(
                    DbError::ConstraintViolation,
                ) && final(store).sessions == old(store).sessions,
            },
            final(store).boards == old(store).boards,
            final(store).posts == old(store).posts,
            final(store).replies == old(store).replies,
            final(store).images == old(store).images,
            final(store).originals == old(store).originals,
            final(store).thumbnails == old(store).thumbnails,
            final(store).bans == old(store).bans,
            final(store).captchas == old(store).captchas,
            final(store).users == old(store).users,
    {
        if !store.knows_user(uid) {
            return Err(Error::Db(DbError::ConstraintViolation));
        }
        let session = Session { id, uid, logged_in_at: now };
        store.sessions.push(session);
        Ok(session)
    }

    /// The token of the user who is logged in.
    pub fn uid(&self) -> (uid: Uuid)
        ensures
            uid == self.uid,
    {
        self.uid
    }
}

impl AdminPrivilege {
    /// The token of the user who holds the privilege.
    pub fn uid(&self) -> (uid: Uuid)
        ensures
            uid == self.uid,
    {
        self.uid
    }

    /// The privilege that a session token gives.
    pub fn from_token(token: Option<Uuid>, store: &Store) -> (out: Option<AdminPrivilege>)
        ensures
            out == privilege_of(store.sessions@, token),
    {
        match token {
            Some(id) => match Session::get(id, store) {
                Ok(Some(session)) => Some(AdminPrivilege { uid: session.uid() }),
                _ => None,
            },
            None => None,
        }
    }

    /// The privilege that the session cookie of a request gives: none
    /// without a cookie, with a cookie that holds no token, or with a token
    /// under which nobody is logged in.
    pub fn from_request(cookie: Option<&str>, store: &Store) -> (out: Option<AdminPrivilege>)
        ensures
            out == privilege_of(store.sessions@, token_of(crate::text::str_of(cookie))),
    {
        let token = match cookie {
            Some(text) => Uuid::parse(text),
            None => None,
        };
        AdminPrivilege::from_token(token, store)
    }
}

} // verus!
