use vstd::prelude::*;
use crate::errors::{DbError, Error};
use crate::models::{AdminPrivilege, Board, BoardForm};
use crate::store::{has_board, Store};

verus! {

/// Makes the board that an administrator asks for. The privilege shows
/// that the request comes from a user who is logged in.
pub fn create_board(form: &BoardForm<'_>, _privilege: AdminPrivilege, store: &mut Store) -> (out:
    Result<(), Error>)
    requires
        old(store).wf(),
    ensures
        final(store).wf(),
        match out {
            Ok(_) => !has_board(old(store).boards@, form.name@) && old(store).with_board(
                *final(store),
                form.name@,
                form.title@,
            ),
            Err(e) => has_board(old(store).boards@, form.name@) && e == Error::Db(
                DbError::ConstraintViolation,
            ) && *final(store) == *old(store),
        },
{
    Board::create(form.name.as_ref(), form.title.as_ref(), store)
}

} // verus!
