use vstd::prelude::*;

verus! {

/// A fault of the backing store.
#[derive(Debug, Clone, PartialEq, Eq)]
pub enum DbError {
    /// A row refers to a row that does not exist, or repeats a unique key.
    ConstraintViolation,
    /// A counter has left the range of its column.
    OutOfRange,
    /// Any other fault, with the store's own words.
    Failure(String),
}

/// Why a field of a form is refused.
#[derive(Debug, Clone, PartialEq, Eq)]
pub enum ValidationError {
    /// A text field that must not be empty is empty.
    EmptyField,
    /// An uploaded file has no bytes.
    EmptyFile,
    /// An uploaded file is larger than the limit.
    OversizedUpload,
}

/// Every way in which an operation of the board can fail.
#[derive(Debug, Clone, PartialEq, Eq)]
pub enum Error {
    Db(DbError),
    Image(String),
    Rocket(String),
    Dotenv(String),
    NotFound,
    Io(String),
    Banned(String),
    MissingImage,
    MissingOrInvalidCaptchaID,
    Validation(ValidationError),
}

pub const STATUS_OK: u16 = 200;

pub const STATUS_FORBIDDEN: u16 = 403;

pub const STATUS_NOT_FOUND: u16 = 404;

pub const STATUS_UNPROCESSABLE: u16 = 422;

pub const STATUS_SERVER_ERROR: u16 = 500;

pub const NOT_FOUND_TEXT: &'static str = "404: NotFound";

pub const BANNED_TEXT: &'static str = "Banned. Reason: ";

pub const MISSING_IMAGE_TEXT: &'static str = "You must supply an image when creating a thread";

pub const MISSING_CAPTCHA_TEXT: &'static str =
    "You're supposed to have a captcha cookie to do that";

pub const CONSTRAINT_TEXT: &'static str = "a row violates a constraint";

pub const OUT_OF_RANGE_TEXT: &'static str = "integer out of range";

pub const EMPTY_FIELD_TEXT: &'static str = "Empty NonEmptyStr";

pub const EMPTY_FILE_TEXT: &'static str = "Empty files are not allowed";

pub const OVERSIZED_TEXT: &'static str = "The file is larger than the upload limit";

impl DbError {
    /// The words that describe the fault.
    pub open spec fn text(self) -> Seq<char> {
        match self {
            DbError::ConstraintViolation => CONSTRAINT_TEXT@,
            DbError::OutOfRange => OUT_OF_RANGE_TEXT@,
            DbError::Failure(words) => words@,
        }
    }

    pub fn message(&self) -> (words: String)
        ensures
            words@ == self.text(),
    {
        match self {
            DbError::ConstraintViolation => String::from_str(CONSTRAINT_TEXT),
            DbError::OutOfRange => String::from_str(OUT_OF_RANGE_TEXT),
            DbError::Failure(words) => words.clone(),
        }
    }
}

impl ValidationError {
    /// The words that describe the refusal.
    pub open spec fn text(self) -> Seq<char> {
        match self {
            ValidationError::EmptyField => EMPTY_FIELD_TEXT@,
            ValidationError::EmptyFile => EMPTY_FILE_TEXT@,
            ValidationError::OversizedUpload => OVERSIZED_TEXT@,
        }
    }

    pub fn message(&self) -> (words: String)
        ensures
            words@ == self.text(),
    {
        match self {
            ValidationError::EmptyField => String::from_str(EMPTY_FIELD_TEXT),
            ValidationError::EmptyFile => String::from_str(EMPTY_FILE_TEXT),
            ValidationError::OversizedUpload => String::from_str(OVERSIZED_TEXT),
        }
    }
}

impl Error {
    /// The HTTP status under which an error is answered: a missing row is
    /// not found; a refused form, and an upload that is no picture, are
    /// unprocessable; a ban is an ordinary answer that carries the reason;
    /// and every fault of the store, the server or the file system is a
    /// server error.
    pub open spec fn status_of(self) -> u16 {
        match self {
            Error::NotFound => STATUS_NOT_FOUND,
            Error::Banned(_) => STATUS_OK,
            Error::MissingImage => STATUS_UNPROCESSABLE,
            Error::MissingOrInvalidCaptchaID => STATUS_UNPROCESSABLE,
            Error::Validation(_) => STATUS_UNPROCESSABLE,
            Error::Image(_) => STATUS_UNPROCESSABLE,
            Error::Db(_) => STATUS_SERVER_ERROR,
            Error::Rocket(_) => STATUS_SERVER_ERROR,
            Error::Dotenv(_) => STATUS_SERVER_ERROR,
            Error::Io(_) => STATUS_SERVER_ERROR,
        }
    }

    /// The text that is shown for an error.
    pub open spec fn text(self) -> Seq<char> {
        match self {
            Error::Db(fault) => fault.text(),
            Error::Image(words) => words@,
            Error::Rocket(words) => words@,
            Error::Dotenv(words) => words@,
            Error::NotFound => NOT_FOUND_TEXT@,
            Error::Io(words) => words@,
            Error::Banned(reason) => BANNED_TEXT@ + reason@,
            Error::MissingImage => MISSING_IMAGE_TEXT@,
            Error::MissingOrInvalidCaptchaID => MISSING_CAPTCHA_TEXT@,
            Error::Validation(refusal) => refusal.text(),
        }
    }

    /// The HTTP status under which this error is answered.
    pub fn status(&self) -> (code: u16)
        ensures
            code == self.status_of(),
    {
        match self {
            Error::NotFound => STATUS_NOT_FOUND,
            Error::Banned(_) => STATUS_OK,
            Error::MissingImage => STATUS_UNPROCESSABLE,
            Error::MissingOrInvalidCaptchaID => STATUS_UNPROCESSABLE,
            Error::Validation(_) => STATUS_UNPROCESSABLE,
            Error::Image(_) => STATUS_UNPROCESSABLE,
            _ => STATUS_SERVER_ERROR,
        }
    }

    /// The text that is shown for this error.
    pub fn message(&self) -> (words: String)
        ensures
            words@ == self.text(),
    {
        match self {
            Error::Db(fault) => fault.message(),
            Error::Image(words) => words.clone(),
            Error::Rocket(words) => words.clone(),
            Error::Dotenv(words) => words.clone(),
            Error::NotFound => String::from_str(NOT_FOUND_TEXT),
            Error::Io(words) => words.clone(),
            Error::Banned(reason) => String::from_str(BANNED_TEXT).concat(reason.as_str()),
            Error::MissingImage => String::from_str(MISSING_IMAGE_TEXT),
            Error::MissingOrInvalidCaptchaID => String::from_str(MISSING_CAPTCHA_TEXT),
            Error::Validation(refusal) => refusal.message(),
        }
    }

    /// The answer to a request that failed: its status and its text.
    pub fn respond_to(self) -> (answer: (u16, String))
        ensures
            answer.0 == self.status_of(),
            answer.1@ == self.text(),
    {
        let code = self.status();
        let words = self.message();
        (code, words)
    }
}

} // verus!
