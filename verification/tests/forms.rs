use ruburu::errors::ValidationError;
use ruburu::models::{field_str, Bytes, NonEmptyStr, PostForm};

#[test]
fn an_empty_field_is_refused() {
    assert_eq!(NonEmptyStr::from_value(""), Err(ValidationError::EmptyField));
}

#[test]
fn a_field_with_text_is_kept() {
    let field = NonEmptyStr::from_value("hello").unwrap();
    assert_eq!(field.as_ref(), "hello");
    assert_eq!(field.deref(), "hello");
    assert_eq!(field_str(&Some(field)), Some("hello"));
    assert_eq!(field_str(&None), None);
}

#[test]
fn an_empty_file_is_refused() {
    assert_eq!(Bytes::from_data(Vec::new()), Err(ValidationError::EmptyFile));
}

#[test]
fn a_file_over_the_limit_is_refused() {
    assert_eq!(Bytes::from_data(vec![0; 10 * 1024 * 1024 + 1]), Err(ValidationError::OversizedUpload));
    assert!(Bytes::from_data(vec![0; 10 * 1024 * 1024]).is_ok());
}

#[test]
fn a_file_is_kept_as_it_is() {
    let file = Bytes::from_data(vec![1, 2, 3]).unwrap();
    assert_eq!(file.deref(), &[1, 2, 3]);
    assert_eq!(Bytes::from_value("hé").deref(), "hé".as_bytes());
}

#[test]
fn a_form_hands_out_its_answer() {
    let form = PostForm {
        title: None,
        author: None,
        email: None,
        sage: false,
        content: None,
        thread: None,
        board: NonEmptyStr::from_value("b").unwrap(),
        image: None,
        captcha: Some(NonEmptyStr::from_value("abc").unwrap()),
    };
    assert_eq!(form.captcha(), Some("abc"));
}
