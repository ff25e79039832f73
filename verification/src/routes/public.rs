use vstd::prelude::*;
use crate::abuse::{holds_random_token, latest_ban, solution_of};
use crate::accounts::token_of;
use crate::errors::{DbError, Error};
use crate::ident::Uuid;
use crate::images::{
    be32, is_png_within, md5_digest, picture_size, scaled_to_fit, thumbnail_succeeds,
    THUMBNAIL_SIDE,
};
use crate::models::{
    field_str, field_text, Bytes, Captcha, Image, NotBanned, Post, PostForm,
};
use crate::net::IpNetwork;
use crate::posts::{board_counter, image_hash};
use crate::store::{has_board, has_challenge, has_image, Store};
use crate::text::{lowercased, str_of};
use crate::threads::thread_posts;

verus! {

/// The bytes of an optional upload.
pub open spec fn upload_bytes(upload: Option<Bytes>) -> Option<Seq<u8>> {
    match upload {
        Some(bytes) => Some(bytes@),
        None => None,
    }
}

impl Store {
    /// Whether `after` and `out` are what comes of storing the upload of a
    /// request in this store: without an upload nothing, else the image
    /// under its digest, or the fault of the codec. An upload succeeds if
    /// its bytes are recorded already, which changes nothing, or if a
    /// thumbnail can be made of them.
    pub open spec fn attached(
        self,
        after: Store,
        upload: Option<Seq<u8>>,
        out: Result<Option<Image>, Error>,
    ) -> bool {
        match upload {
            None => after == self && out == Ok::<Option<Image>, Error>(None),
            Some(bytes) => {
                let hash = Uuid(md5_digest(bytes));
                &&& out is Ok <==> has_image(self.images@, hash) || thumbnail_succeeds(
                    bytes,
                    THUMBNAIL_SIDE,
                    THUMBNAIL_SIDE,
                )
                &&& has_image(self.images@, hash) ==> after == self
                &&& match out {
                    Ok(Some(image)) => image.hash == hash && has_image(after.images@, hash)
                        && exists|small: Seq<u8>|
                        is_png_within(small, THUMBNAIL_SIDE, THUMBNAIL_SIDE) && (!has_image(
                            self.images@,
                            hash,
                        ) ==> scaled_to_fit(
                            picture_size(bytes),
                            be32(small, 16),
                            be32(small, 20),
                            THUMBNAIL_SIDE,
                            THUMBNAIL_SIDE,
                        )) && self.recorded(after, hash, bytes, Ok(small)),
                    Ok(None) => false,
                    Err(fault) => fault is Image && self.recorded(after, hash, bytes, Err(fault)),
                }
            },
        }
    }

    /// Whether `after` and `out` are what comes of posting what a form
    /// holds, with the image that was stored for it, to this store. With a
    /// thread named the post is a reply, and the thread is answered; with
    /// none it opens a thread, for which an image is needed, and its own id
    /// is answered. A post that is refused changes nothing.
    pub open spec fn published(
        self,
        after: Store,
        form: PostForm<'_>,
        image: Option<Image>,
        ip: IpNetwork,
        now: i64,
        out: Result<i32, Error>,
    ) -> bool {
        let board = form.board@;
        let made = (board_counter(self.boards@, board) + 1) as i32;
        match form.thread {
            Some(thread) => match self.refusal(board, Some(thread), image_hash(image)) {
                Some(e) => out == Err::<i32, Error>(e) && after == self,
                None => out == Ok::<i32, Error>(thread) && self.posted(
                    after,
                    made,
                    thread,
                    board,
                    field_text(form.title),
                    field_text(form.author),
                    field_text(form.email),
                    form.sage,
                    field_text(form.content),
                    ip,
                    image_hash(image),
                    now,
                ),
            },
            None => match image {
                None => out == Err::<i32, Error>(Error::MissingImage) && after == self,
                Some(record) => match self.refusal(board, None, Some(record.hash)) {
                    Some(e) => out == Err::<i32, Error>(e) && after == self,
                    None => out == Ok::<i32, Error>(made) && self.posted(
                        after,
                        made,
                        made,
                        board,
                        field_text(form.title),
                        field_text(form.author),
                        field_text(form.email),
                        form.sage,
                        field_text(form.content),
                        ip,
                        Some(record.hash),
                        now,
                    ),
                },
            },
        }
    }
}

/// What a form asks for: a reply to a thread, with or without an image, or
/// a new thread with its image.
#[derive(Debug, Clone, Copy, PartialEq, Eq, Structural)]
#[allow(inconsistent_fields)]
pub enum Submission {
    Reply { thread: i32, image: Option<Image> },
    Thread { image: Image },
}

/// What a form asks for, given the image that was stored for it. A form
/// that names a thread asks for a reply; one that names none asks for a
/// thread, which needs an image.
pub open spec fn submission_of(thread: Option<i32>, image: Option<Image>) -> Result<
    Submission,
    Error,
> {
    match thread {
        Some(thread) => Ok(Submission::Reply { thread, image }),
        None => match image {
            Some(image) => Ok(Submission::Thread { image }),
            None => Err(Error::MissingImage),
        },
    }
}

impl<'r> PostForm<'r> {
    /// What this form asks for, given the image that was stored for it.
    pub fn submission(&self, image: Option<Image>) -> (out: Result<Submission, Error>)
        ensures
            out == submission_of(self.thread, image),
    {
        match self.thread {
            Some(thread) => Ok(Submission::Reply { thread, image }),
            None => match image {
                Some(image) => Ok(Submission::Thread { image }),
                None => Err(Error::MissingImage),
            },
        }
    }
}

/// Lets a request pass that comes from an address under no ban and that
/// answers its captcha rightly. The captcha is used up by the answer, right
/// or wrong; a request that is banned, or that lacks the token or the
/// answer, changes nothing.
pub fn authorize(
    ip: IpNetwork,
    token: Option<Uuid>,
    answer: Option<&str>,
    now: i64,
    store: &mut Store,
) -> (out: Result<NotBanned, Error>)
    requires
        old(store).wf(),
    ensures
        final(store).wf(),
        match latest_ban(old(store).bans@, ip, now) {
            Some(at) => 0 <= at < old(store).bans@.len() && *final(store) == *old(store) && (out
                matches Err(Error::Banned(reason)) && reason@ == old(store).bans@[at].reason@),
            None => match (token, answer) {
                (Some(id), Some(text)) => old(store).consumed(*final(store), id) && out == (
                if solution_of(old(store).captchas@, id) == Some(lowercased(text@)) {
                    Ok::<NotBanned, Error>(NotBanned)
                } else {
                    Err::<NotBanned, Error>(Error::MissingOrInvalidCaptchaID)
                }),
                _ => *final(store) == *old(store) && out == Err::<NotBanned, Error>(
                    Error::MissingOrInvalidCaptchaID,
                ),
            },
        },
{
    let pass = match NotBanned::from_request(ip, now, &*store) {
        Ok(pass) => pass,
        Err((_, fault)) => {
            return Err(fault);
        },
    };
    let id = match token {
        Some(id) => id,
        None => {
            return Err(Error::MissingOrInvalidCaptchaID);
        },
    };
    let text = match answer {
        Some(text) => text,
        None => {
            return Err(Error::MissingOrInvalidCaptchaID);
        },
    };
    match Captcha::verify(id, text, store) {
        Ok(true) => Ok(pass),
        _ => Err(Error::MissingOrInvalidCaptchaID),
    }
}

/// Stores the upload of a request, if it has one.
pub fn attach(upload: &Option<Bytes>, store: &mut Store) -> (out: Result<Option<Image>, Error>)
    requires
        old(store).wf(),
    ensures
        final(store).wf(),
        old(store).attached(*final(store), upload_bytes(*upload), out),
{
    match upload {
        Some(file) => {
            match Image::from_buf(file.deref(), store) {
                Ok(image) => Ok(Some(image)),
                Err(fault) => Err(fault),
            }
        },
        None => Ok(None),
    }
}

/// Posts what a form holds, with the image that was stored for it.
pub fn publish(
    form: &PostForm<'_>,
    image: Option<Image>,
    ip: IpNetwork,
    now: i64,
    store: &mut Store,
) -> (out: Result<i32, Error>)
    requires
        old(store).wf(),
    ensures
        final(store).wf(),
        old(store).published(*final(store), *form, image, ip, now, out),
{
    let board = form.board.as_ref();
    let title = field_str(&form.title);
    let author = field_str(&form.author);
    let email = field_str(&form.email);
    let content = field_str(&form.content);
    match form.submission(image) {
        Err(fault) => Err(fault),
        Ok(Submission::Reply { thread, image }) => {
            match Post::create(
                board,
                thread,
                title,
                author,
                email,
                form.sage,
                content,
                ip,
                image,
                now,
                store,
            ) {
                Ok(id) => {
                    proof {
                        lemma_made_id(*old(store), board@, id);
                    }
                    Ok(thread)
                },
                Err(fault) => Err(fault),
            }
        },
        Ok(Submission::Thread { image }) => {
            match Post::create_thread(
                board,
                title,
                author,
                email,
                form.sage,
                content,
                ip,
                image,
                now,
                store,
            ) {
                Ok(id) => {
                    proof {
                        lemma_made_id(*old(store), board@, id);
                    }
                    Ok(id)
                },
                Err(fault) => Err(fault),
            }
        },
    }
}

proof fn lemma_made_id(store: Store, board: Seq<char>, id: i32)
    requires
        has_board(store.boards@, board),
        forall|b: int|
            0 <= b < store.boards@.len() && (#[trigger] store.boards@[b]).name@ == board ==> id
                == store.boards@[b].next_post_id + 1,
    ensures
        id == board_counter(store.boards@, board) + 1,
{
}

/// Handles a request to post: turns away an address that is banned, checks
/// the answer to the captcha that the cookie names, stores the upload and
/// makes the post. Answers the thread that the post belongs to.
pub fn create_post(
    form: &PostForm<'_>,
    store: &mut Store,
    ip: IpNetwork,
    captcha_cookie: Option<&str>,
    now: i64,
) -> (out: Result<i32, Error>)
    requires
        old(store).wf(),
    ensures
        final(store).wf(),
        match latest_ban(old(store).bans@, ip, now) {
            Some(at) => 0 <= at < old(store).bans@.len() && *final(store) == *old(store) && (out
                matches Err(Error::Banned(reason)) && reason@ == old(store).bans@[at].reason@),
            None => match (token_of(str_of(captcha_cookie)), field_text(form.captcha)) {
                (Some(id), Some(text)) => if solution_of(old(store).captchas@, id) == Some(
                    lowercased(text),
                ) {
                    exists|checked: Store, stored: Store, image: Result<Option<Image>, Error>|
                        #![auto]
                        old(store).consumed(checked, id) && checked.attached(
                            stored,
                            upload_bytes(form.image),
                            image,
                        ) && match image {
                            Ok(record) => stored.published(
                                *final(store),
                                *form,
                                record,
                                ip,
                                now,
                                out,
                            ),
                            Err(fault) => out == Err::<i32, Error>(fault) && *final(store)
                                == stored,
                        }
                } else {
                    old(store).consumed(*final(store), id) && out == Err::<i32, Error>(
                        Error::MissingOrInvalidCaptchaID,
                    )
                },
                _ => *final(store) == *old(store) && out == Err::<i32, Error>(
                    Error::MissingOrInvalidCaptchaID,
                ),
            },
        },
{
    let token = match captcha_cookie {
        Some(text) => Uuid::parse(text),
        None => None,
    };
    match authorize(ip, token, form.captcha(), now, store) {
        Ok(_) => {},
        Err(fault) => {
            return Err(fault);
        },
    }
    let image = attach(&form.image, store);
    let record = match image {
        Ok(record) => record,
        Err(fault) => {
            return Err(fault);
        },
    };
    publish(form, record, ip, now, store)
}

/// Handles a view of a board's page: the board must exist, and the page
/// offers a form, for which a captcha is issued from the picture and the
/// characters that it shows. On a board that exists this fails only where
/// the token that was drawn is in use.
pub fn board(name: &str, picture: String, chars: &str, store: &mut Store) -> (out: Result<
    Captcha,
    Error,
>)
    requires
        old(store).wf(),
    ensures
        final(store).wf(),
        !has_board(old(store).boards@, name@) ==> out == Err::<Captcha, Error>(Error::NotFound)
            && *final(store) == *old(store),
        has_board(old(store).boards@, name@) && out is Err ==> holds_random_token(
            old(store).captchas@,
        ),
        has_board(old(store).boards@, name@) ==> match out {
            Ok(captcha) => !has_challenge(old(store).captchas@, captcha.id)
                && captcha.base64image@ == picture@ && captcha.solution@ == lowercased(chars@)
                && old(store).issued(*final(store), captcha.id, lowercased(chars@)),
            Err(e) => e == Error::Db(DbError::ConstraintViolation) && *final(store) == *old(store),
        },
{
    if store.find_board(name).is_none() {
        return Err(Error::NotFound);
    }
    Captcha::new(picture, chars, store)
}

/// Handles a view of a thread's page: the board and the thread must exist,
/// and the page offers a form, for which a captcha is issued from the
/// picture and the characters that it shows. On a thread that exists this
/// fails only where the token that was drawn is in use.
pub fn thread(name: &str, id: i32, picture: String, chars: &str, store: &mut Store) -> (out: Result<
    Captcha,
    Error,
>)
    requires
        old(store).wf(),
    ensures
        final(store).wf(),
        !has_board(old(store).boards@, name@) || thread_posts(old(store).posts@, name@, id).len()
            == 0 ==> out == Err::<Captcha, Error>(Error::NotFound) && *final(store) == *old(store),
        has_board(old(store).boards@, name@) && thread_posts(old(store).posts@, name@, id).len()
            > 0 && out is Err ==> holds_random_token(old(store).captchas@),
        has_board(old(store).boards@, name@) && thread_posts(old(store).posts@, name@, id).len()
            > 0 ==> match out {
            Ok(captcha) => !has_challenge(old(store).captchas@, captcha.id)
                && captcha.base64image@ == picture@ && captcha.solution@ == lowercased(chars@)
                && old(store).issued(*final(store), captcha.id, lowercased(chars@)),
            Err(e) => e == Error::Db(DbError::ConstraintViolation) && *final(store) == *old(store),
        },
{
    if store.find_board(name).is_none() {
        return Err(Error::NotFound);
    }
    if Post::for_thread(name, id, &*store).is_err() {
        return Err(Error::NotFound);
    }
    Captcha::new(picture, chars, store)
}

} // verus!
