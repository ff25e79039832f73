use vstd::prelude::*;
use crate::errors::ValidationError;
use crate::ident::Uuid;
use crate::net::IpNetwork;
use crate::text::{borrowed, str_of, text_of};
use vstd::string::StringSliceAdditionalSpecFns;

verus! {

/// A board: its unique name, its title and the counter from which its
/// posts take their ids.
#[derive(Debug, Clone, PartialEq, Eq)]
pub struct Board {
    pub name: String,
    pub title: String,
    pub next_post_id: i32,
}

impl Board {
    /// The board's name.
    #[must_use]
    pub fn name(&self) -> (name: &str)
        ensures
            name@ == self.name@,
    {
        self.name.as_str()
    }

    /// The board's title.
    #[must_use]
    pub fn title(&self) -> (title: &str)
        ensures
            title@ == self.title@,
    {
        self.title.as_str()
    }

    /// The id that the board gave out last, or 0 if it has no post yet.
    #[must_use]
    pub fn next_post_id(&self) -> (id: i32)
        ensures
            id == self.next_post_id,
    {
        self.next_post_id
    }
}

/// A post. The post that opens a thread has its own id as its thread.
#[derive(Debug, Clone, PartialEq, Eq)]
pub struct Post {
    pub id: i32,
    pub board: String,
    pub title: Option<String>,
    pub author: Option<String>,
    pub email: Option<String>,
    pub sage: bool,
    pub plaintext_content: Option<String>,
    pub html_content: String,
    pub posted_at: i64,
    pub thread: i32,
    pub ip: IpNetwork,
    pub image: Option<Uuid>,
}

impl Post {
    /// Whether this post opens a thread.
    pub open spec fn is_root(self) -> bool {
        self.thread == self.id
    }

    /// The post's id.
    #[must_use]
    pub fn id(&self) -> (id: i32)
        ensures
            id == self.id,
    {
        self.id
    }

    /// The post's rendered content.
    #[must_use]
    pub fn html_content(&self) -> (html: &str)
        ensures
            html@ == self.html_content@,
    {
        self.html_content.as_str()
    }

    /// The post's title.
    #[must_use]
    pub fn title(&self) -> (title: Option<&str>)
        ensures
            str_of(title) == text_of(self.title),
    {
        borrowed(&self.title)
    }

    /// The post's author.
    #[must_use]
    pub fn author(&self) -> (author: Option<&str>)
        ensures
            str_of(author) == text_of(self.author),
    {
        borrowed(&self.author)
    }

    /// The post's email.
    #[must_use]
    pub fn email(&self) -> (email: Option<&str>)
        ensures
            str_of(email) == text_of(self.email),
    {
        borrowed(&self.email)
    }

    /// When the post was made.
    pub fn posted_at(&self) -> (at: i64)
        ensures
            at == self.posted_at,
    {
        self.posted_at
    }

    /// The name of the post's board.
    pub fn board(&self) -> (board: &str)
        ensures
            board@ == self.board@,
    {
        self.board.as_str()
    }

    /// The id of the post's thread.
    pub fn thread(&self) -> (thread: i32)
        ensures
            thread == self.thread,
    {
        self.thread
    }

    /// Whether the post leaves its thread where it is in the listing.
    pub fn sage(&self) -> (sage: bool)
        ensures
            sage == self.sage,
    {
        self.sage
    }

    /// The digest of the post's image.
    pub fn image(&self) -> (image: Option<Uuid>)
        ensures
            image == self.image,
    {
        self.image
    }
}

/// A post that refers to another: its id, its board and its thread.
#[derive(Debug, Clone, PartialEq, Eq)]
pub struct Reply {
    pub reply_id: i32,
    pub reply_board: String,
    pub reply_thread: i32,
}

impl Reply {
    /// The id of the referring post.
    #[must_use]
    pub fn id(&self) -> (id: i32)
        ensures
            id == self.reply_id,
    {
        self.reply_id
    }

    /// The board of the referring post.
    #[must_use]
    pub fn board(&self) -> (board: &str)
        ensures
            board@ == self.reply_board@,
    {
        self.reply_board.as_str()
    }

    /// The thread of the referring post.
    #[must_use]
    pub fn thread(&self) -> (thread: i32)
        ensures
            thread == self.reply_thread,
    {
        self.reply_thread
    }
}

/// An edge of the reply graph: the post `reply` refers to the post
/// `message_id` of the board `message_board`.
#[derive(Debug, Clone, PartialEq, Eq)]
pub struct ReplyEdge {
    pub message_id: i32,
    pub message_board: String,
    pub reply: Reply,
}

/// A text of a form that is known not to be empty.
#[derive(Debug, Clone, Copy, PartialEq, Eq)]
pub struct NonEmptyStr<'s>(&'s str);

impl<'s> NonEmptyStr<'s> {
    #[verifier::type_invariant]
    spec fn holds_text(self) -> bool {
        self.0@.len() > 0
    }

    /// The text that is held.
    pub closed spec fn view(self) -> Seq<char> {
        self.0@
    }

    /// Accepts a field's value unless it is empty.
    pub fn from_value(field: &'s str) -> (out: Result<NonEmptyStr<'s>, ValidationError>)
        ensures
            field@.len() == 0 ==> out == Err::<NonEmptyStr<'s>, ValidationError>(
                ValidationError::EmptyField,
            ),
            field@.len() > 0 ==> out is Ok && out->Ok_0@ == field@,
    {
        if field.is_empty() {
            Err(ValidationError::EmptyField)
        } else {
            Ok(NonEmptyStr(field))
        }
    }

    /// The text that is held.
    pub fn as_ref(&self) -> (text: &'s str)
        ensures
            text@ == self@,
            text@.len() > 0,
    {
        proof {
            use_type_invariant(self);
        }
        self.0
    }

    /// The text that is held.
    pub fn deref(&self) -> (text: &'s str)
        ensures
            text@ == self@,
            text@.len() > 0,
    {
        self.as_ref()
    }
}

/// The text of an optional field.
pub open spec fn field_text(field: Option<NonEmptyStr<'_>>) -> Option<Seq<char>> {
    match field {
        Some(words) => Some(words@),
        None => None,
    }
}

/// Borrows the text of an optional field.
pub fn field_str<'s>(field: &Option<NonEmptyStr<'s>>) -> (out: Option<&'s str>)
    ensures
        str_of(out) == field_text(*field),
{
    match field {
        Some(words) => Some(words.as_ref()),
        None => None,
    }
}

/// Largest upload that is accepted, in bytes: ten mebibytes.
pub const UPLOAD_LIMIT: usize = 10485760;

/// The bytes of an uploaded file.
#[derive(Debug, Clone, PartialEq, Eq)]
pub struct Bytes(pub Vec<u8>);

impl Bytes {
    /// The bytes that are held.
    pub open spec fn view(self) -> Seq<u8> {
        self.0@
    }

    /// Accepts an uploaded file unless it is empty or larger than the
    /// limit.
    pub fn from_data(data: Vec<u8>) -> (out: Result<Bytes, ValidationError>)
        ensures
            data@.len() == 0 ==> out == Err::<Bytes, ValidationError>(ValidationError::EmptyFile),
            data@.len() > UPLOAD_LIMIT ==> out == Err::<Bytes, ValidationError>(
                ValidationError::OversizedUpload,
            ),
            0 < data@.len() <= UPLOAD_LIMIT ==> out == Ok::<Bytes, ValidationError>(Bytes(data)),
    {
        if data.len() == 0 {
            Err(ValidationError::EmptyFile)
        } else if data.len() > UPLOAD_LIMIT {
            Err(ValidationError::OversizedUpload)
        } else {
            Ok(Bytes(data))
        }
    }

    /// Takes a field's text as the bytes of a file.
    pub fn from_value(field: &str) -> (out: Bytes)
        ensures
            out@ == field.spec_bytes(),
    {
        Bytes(field.as_bytes_vec())
    }

    /// The bytes that are held.
    pub fn deref(&self) -> (bytes: &[u8])
        ensures
            bytes@ == self@,
    {
        self.0.as_slice()
    }
}

/// What a visitor sends to make a post.
#[derive(Debug)]
pub struct PostForm<'r> {
    pub title: Option<NonEmptyStr<'r>>,
    pub author: Option<NonEmptyStr<'r>>,
    pub email: Option<NonEmptyStr<'r>>,
    pub sage: bool,
    pub content: Option<NonEmptyStr<'r>>,
    pub thread: Option<i32>,
    pub board: NonEmptyStr<'r>,
    pub image: Option<Bytes>,
    pub captcha: Option<NonEmptyStr<'r>>,
}

impl<'r> PostForm<'r> {
    /// The answer to the captcha.
    pub fn captcha(&self) -> (answer: Option<&'r str>)
        ensures
            str_of(answer) == field_text(self.captcha),
    {
        field_str(&self.captcha)
    }
}

/// What an administrator sends to make a board.
#[derive(Debug)]
pub struct BoardForm<'r> {
    pub name: NonEmptyStr<'r>,
    pub title: NonEmptyStr<'r>,
}

/// What an administrator sends to log in.
#[derive(Debug)]
pub struct LoginForm<'r> {
    pub name: NonEmptyStr<'r>,
    pub password: NonEmptyStr<'r>,
}

/// What a user may do.
#[derive(Debug, Clone, Copy, PartialEq, Eq, Structural)]
pub enum PrivelegeLevel {
    Admin,
    Mod,
}

/// The record of a stored image: the digest of its bytes.
#[derive(Debug, Clone, Copy, PartialEq, Eq, Structural)]
pub struct Image {
    pub hash: Uuid,
}

/// A ban of a network for a time.
#[derive(Debug, Clone, PartialEq, Eq)]
pub struct Ban {
    pub ip: IpNetwork,
    pub reason: String,
    pub created_at: i64,
    pub duration: i64,
}

/// A captcha as it is shown: its token, its picture and its solution.
#[derive(Debug, Clone, PartialEq, Eq)]
pub struct Captcha {
    pub id: Uuid,
    pub base64image: String,
    pub solution: String,
}

/// A captcha that waits for its answer.
#[derive(Debug, Clone, PartialEq, Eq)]
pub struct Challenge {
    pub id: Uuid,
    pub solution: String,
}

/// A user of the administration.
#[derive(Debug, Clone, PartialEq, Eq)]
pub struct User {
    pub id: Uuid,
    pub name: String,
    pub level: PrivelegeLevel,
}

/// A login of a user.
#[derive(Debug, Clone, Copy, PartialEq, Eq, Structural)]
pub struct Session {
    pub id: Uuid,
    pub uid: Uuid,
    pub logged_in_at: i64,
}

/// Proof that a request comes from a user who is logged in.
#[derive(Debug, Clone, Copy, PartialEq, Eq, Structural)]
pub struct AdminPrivilege {
    pub uid: Uuid,
}

/// Proof that the address of a request is under no ban.
#[derive(Debug, Clone, Copy, PartialEq, Eq, Structural)]
pub struct NotBanned;

/// A blob of the file tree, kept under the digest of an image.
#[derive(Debug, Clone, PartialEq, Eq)]
pub struct StoredFile {
    pub hash: Uuid,
    pub bytes: Vec<u8>,
}

} // verus!
