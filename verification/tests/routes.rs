use ruburu::errors::Error;
use ruburu::ident::Uuid;
use ruburu::models::{Ban, Board, Bytes, Captcha, NonEmptyStr, NotBanned, Post, PostForm};
use ruburu::net::IpNetwork;
use ruburu::routes::public::{attach, authorize, board, create_post, publish, thread};
use ruburu::store::Store;

fn png() -> Vec<u8> {
    let picture = image::RgbImage::from_pixel(4, 4, image::Rgb([1, 2, 3]));
    let mut out = Vec::new();
    let encoder = image::codecs::png::PngEncoder::new(&mut out);
    image::ImageEncoder::write_image(encoder, picture.as_raw(), 4, 4, image::ColorType::Rgb8)
        .unwrap();
    out
}

fn host() -> IpNetwork {
    IpNetwork::host_v4(0x0a000001)
}

fn form<'r>(thread: Option<i32>, with_image: bool, answer: Option<&'r str>) -> PostForm<'r> {
    PostForm {
        title: None,
        author: None,
        email: None,
        sage: false,
        content: Some(NonEmptyStr::from_value("hello").unwrap()),
        thread,
        board: NonEmptyStr::from_value("b").unwrap(),
        image: if with_image { Some(Bytes::from_data(png()).unwrap()) } else { None },
        captcha: answer.map(|text| NonEmptyStr::from_value(text).unwrap()),
    }
}

fn store() -> Store {
    let mut store = Store::new();
    Board::create("b", "Random", &mut store).unwrap();
    store
}

fn captcha(store: &mut Store) -> String {
    Captcha::new(String::new(), "abcdef", store).unwrap().id().hyphenated()
}

#[test]
fn a_thread_without_an_image_is_refused() {
    let mut store = store();
    let cookie = captcha(&mut store);
    let out = create_post(&form(None, false, Some("abcdef")), &mut store, host(), Some(&cookie), 1);
    assert_eq!(out, Err(Error::MissingImage));
    assert!(store.posts.is_empty());
    assert_eq!(Board::get("b", &store).unwrap().next_post_id(), 0);
}

#[test]
fn a_reply_without_an_image_is_accepted() {
    let mut store = store();
    let cookie = captcha(&mut store);
    let opened =
        create_post(&form(None, true, Some("abcdef")), &mut store, host(), Some(&cookie), 1);
    assert_eq!(opened, Ok(1));
    let cookie = captcha(&mut store);
    let replied =
        create_post(&form(Some(1), false, Some("ABCDEF")), &mut store, host(), Some(&cookie), 2);
    assert_eq!(replied, Ok(1));
    assert_eq!(store.posts.len(), 2);
    assert_eq!(store.posts[1].id(), 2);
    assert_eq!(store.posts[1].thread(), 1);
    assert_eq!(store.posts[1].image(), None);
    assert!(store.posts[0].image().is_some());
    assert!(store.captchas.is_empty());
}

#[test]
fn a_banned_address_is_turned_away_until_the_ban_ends() {
    let mut store = store();
    Ban::create(IpNetwork::V4 { address: 0x0a000000, prefix: 8 }, "spam", 100, 50, &mut store);
    let cookie = captcha(&mut store);
    let request = form(None, true, Some("abcdef"));
    let out = create_post(&request, &mut store, host(), Some(&cookie), 120);
    assert_eq!(out, Err(Error::Banned("spam".to_string())));
    assert!(store.posts.is_empty());
    assert_eq!(store.captchas.len(), 1);
    let out = create_post(&request, &mut store, host(), Some(&cookie), 150);
    assert_eq!(out, Ok(1));
}

#[test]
fn a_request_without_a_token_is_refused() {
    let mut store = store();
    captcha(&mut store);
    let request = form(None, true, Some("abcdef"));
    assert_eq!(
        create_post(&request, &mut store, host(), None, 1),
        Err(Error::MissingOrInvalidCaptchaID)
    );
    assert_eq!(
        create_post(&request, &mut store, host(), Some("no token"), 1),
        Err(Error::MissingOrInvalidCaptchaID)
    );
    assert_eq!(store.captchas.len(), 1);
    assert!(store.posts.is_empty());
    assert!(store.images.is_empty());
}

#[test]
fn a_request_without_an_answer_is_refused() {
    let mut store = store();
    let cookie = captcha(&mut store);
    let out = create_post(&form(None, true, None), &mut store, host(), Some(&cookie), 1);
    assert_eq!(out, Err(Error::MissingOrInvalidCaptchaID));
    assert_eq!(store.captchas.len(), 1);
}

#[test]
fn a_wrong_answer_is_refused_and_uses_the_captcha_up() {
    let mut store = store();
    let cookie = captcha(&mut store);
    let out = create_post(&form(None, true, Some("nope")), &mut store, host(), Some(&cookie), 1);
    assert_eq!(out, Err(Error::MissingOrInvalidCaptchaID));
    assert!(store.captchas.is_empty());
    let out = create_post(&form(None, true, Some("abcdef")), &mut store, host(), Some(&cookie), 1);
    assert_eq!(out, Err(Error::MissingOrInvalidCaptchaID));
    assert!(store.posts.is_empty());
}

#[test]
fn an_upload_that_is_no_picture_is_refused() {
    let mut store = store();
    let cookie = captcha(&mut store);
    let mut request = form(None, false, Some("abcdef"));
    request.image = Some(Bytes::from_data(vec![1, 2, 3]).unwrap());
    match create_post(&request, &mut store, host(), Some(&cookie), 1) {
        Err(Error::Image(_)) => {},
        other => panic!("{:?}", other),
    }
    assert!(store.posts.is_empty());
}

#[test]
fn a_request_to_a_missing_board_is_not_found() {
    let mut store = Store::new();
    let cookie = captcha(&mut store);
    let out = create_post(&form(None, true, Some("abcdef")), &mut store, host(), Some(&cookie), 1);
    assert_eq!(out, Err(Error::NotFound));
}

#[test]
fn the_stages_compose() {
    let mut store = store();
    let id = Captcha::new(String::new(), "abc", &mut store).unwrap().id();
    assert_eq!(authorize(host(), Some(id), Some("ABC"), 1, &mut store), Ok(NotBanned));
    assert_eq!(
        authorize(host(), Some(Uuid(1)), Some("abc"), 1, &mut store),
        Err(Error::MissingOrInvalidCaptchaID)
    );
    assert_eq!(attach(&None, &mut store), Ok(None));
    let image = attach(&Some(Bytes::from_data(png()).unwrap()), &mut store).unwrap();
    assert!(image.is_some());
    assert_eq!(publish(&form(None, false, None), None, host(), 1, &mut store), Err(Error::MissingImage));
    assert_eq!(publish(&form(None, false, None), image, host(), 1, &mut store), Ok(1));
    assert_eq!(publish(&form(Some(1), false, None), None, host(), 2, &mut store), Ok(1));
    assert_eq!(Post::for_thread("b", 1, &store).unwrap().len(), 2);
}

#[test]
fn a_page_view_issues_a_captcha() {
    let mut store = store();
    let issued = board("b", "cGlj".to_string(), "XyZ", &mut store).unwrap();
    assert_eq!(issued.solution(), "xyz");
    assert_eq!(issued.base64image(), "cGlj");
    assert_eq!(store.captchas.len(), 1);
    assert_eq!(board("nope", String::new(), "x", &mut store), Err(Error::NotFound));
    assert_eq!(thread("b", 1, String::new(), "x", &mut store), Err(Error::NotFound));
    assert_eq!(store.captchas.len(), 1);
    let cookie = issued.id().hyphenated();
    create_post(&form(None, true, Some("xyz")), &mut store, host(), Some(&cookie), 1).unwrap();
    let second = thread("b", 1, String::new(), "Q", &mut store).unwrap();
    assert_eq!(second.solution(), "q");
    assert_eq!(thread("nope", 1, String::new(), "x", &mut store), Err(Error::NotFound));
}
