use ruburu::errors::{DbError, Error};
use ruburu::ident::Uuid;
use ruburu::models::{Board, Image, Post, StoredFile};
use ruburu::net::IpNetwork;
use ruburu::store::Store;

fn host() -> IpNetwork {
    IpNetwork::host_v4(0x7f000001)
}

fn store_with_board(name: &str) -> (Store, Image) {
    let mut store = Store::new();
    Board::create(name, "Random", &mut store).unwrap();
    let image = known_image(&mut store, 7);
    (store, image)
}

fn known_image(store: &mut Store, value: u128) -> Image {
    let hash = Uuid(value);
    store.originals.push(StoredFile { hash, bytes: vec![1] });
    store.thumbnails.push(StoredFile { hash, bytes: vec![2] });
    store.images.push(Image { hash });
    Image { hash }
}

fn open_thread(store: &mut Store, board: &str, image: Image, text: Option<&str>, now: i64) -> i32 {
    Post::create_thread(board, None, None, None, false, text, host(), image, now, store).unwrap()
}

fn reply(store: &mut Store, board: &str, thread: i32, text: Option<&str>, sage: bool, now: i64) -> i32 {
    Post::create(board, thread, None, None, None, sage, text, host(), None, now, store).unwrap()
}

#[test]
fn render_plain_text_has_no_links() {
    let (store, _) = store_with_board("b");
    let (html, ids) = Post::html_body(Some("plain text"), "b", &store);
    assert_eq!(html, "plain text<br>");
    assert!(ids.is_empty());
}

#[test]
fn render_escapes_markup() {
    let (store, _) = store_with_board("b");
    let (html, ids) = Post::html_body(Some("<script>alert(\"x\")</script> & more"), "b", &store);
    assert_eq!(html, "&lt;script&gt;alert(&quot;x&quot;)&lt;/script&gt; &amp; more<br>");
    assert!(ids.is_empty());
}

#[test]
fn render_links_an_existing_post() {
    let (mut store, image) = store_with_board("b");
    let first = open_thread(&mut store, "b", image, None, 1);
    assert_eq!(first, 1);
    for n in 2..=5 {
        assert_eq!(reply(&mut store, "b", 1, None, false, n as i64), n);
    }
    let (html, ids) = Post::html_body(Some(">>5 hello"), "b", &store);
    assert_eq!(html, "<a href=\"/b/1#5\">&gt;&gt;5</a> hello<br>");
    assert_eq!(ids, vec![5]);
}

#[test]
fn render_leaves_a_missing_post_as_text() {
    let (store, _) = store_with_board("b");
    let (html, ids) = Post::html_body(Some(">>5 hello"), "b", &store);
    assert_eq!(html, "&gt;&gt;5 hello<br>");
    assert!(ids.is_empty());
}

#[test]
fn render_looks_only_at_the_same_board() {
    let (mut store, image) = store_with_board("a");
    Board::create("b", "Other", &mut store).unwrap();
    open_thread(&mut store, "a", image, None, 1);
    let (html, ids) = Post::html_body(Some(">>1"), "b", &store);
    assert_eq!(html, "&gt;&gt;1<br>");
    assert!(ids.is_empty());
    let (html, ids) = Post::html_body(Some(">>1"), "a", &store);
    assert_eq!(html, "<a href=\"/a/1#1\">&gt;&gt;1</a><br>");
    assert_eq!(ids, vec![1]);
}

#[test]
fn render_of_no_body_is_the_empty_block() {
    let (store, _) = store_with_board("b");
    assert_eq!(
        Post::html_body(None, "b", &store),
        ("<div class=\"post-content\"></div>".to_string(), vec![])
    );
    assert_eq!(
        Post::html_body(Some(""), "b", &store),
        ("<div class=\"post-content\"></div>".to_string(), vec![])
    );
}

#[test]
fn render_records_each_post_once() {
    let (mut store, image) = store_with_board("b");
    open_thread(&mut store, "b", image, None, 1);
    reply(&mut store, "b", 1, None, false, 2);
    let (html, ids) = Post::html_body(Some(">>2 >>1 >>2 >>9"), "b", &store);
    assert_eq!(
        html,
        "<a href=\"/b/1#2\">&gt;&gt;2</a> <a href=\"/b/1#1\">&gt;&gt;1</a> \
         <a href=\"/b/1#2\">&gt;&gt;2</a> &gt;&gt;9<br>"
    );
    assert_eq!(ids, vec![1, 2]);
}

#[test]
fn render_styles_and_quotes() {
    let (store, _) = store_with_board("b");
    let (html, _) = Post::html_body(Some(">be me\n**bold** and *thin*"), "b", &store);
    assert_eq!(
        html,
        "<div class=\"green-text\">&gt;be me</div><br><b>bold</b> and <em>thin</em><br>"
    );
}

#[test]
fn ids_are_sequential_on_each_board() {
    let (mut store, image) = store_with_board("a");
    Board::create("b", "Other", &mut store).unwrap();
    let mut on_a = Vec::new();
    let mut on_b = Vec::new();
    on_a.push(open_thread(&mut store, "a", image, None, 1));
    on_b.push(open_thread(&mut store, "b", image, None, 2));
    for n in 0..20 {
        if n % 3 == 0 {
            on_b.push(reply(&mut store, "b", 1, None, false, n));
        } else {
            on_a.push(reply(&mut store, "a", 1, None, n % 2 == 0, n));
        }
    }
    assert_eq!(on_a, (1..=on_a.len() as i32).collect::<Vec<i32>>());
    assert_eq!(on_b, (1..=on_b.len() as i32).collect::<Vec<i32>>());
    assert_eq!(Board::get("a", &store).unwrap().next_post_id(), on_a.len() as i32);
    assert_eq!(Board::get("b", &store).unwrap().next_post_id(), on_b.len() as i32);
}

#[test]
fn a_refused_post_burns_no_id() {
    let (mut store, image) = store_with_board("b");
    assert_eq!(open_thread(&mut store, "b", image, None, 1), 1);
    let refused =
        Post::create("b", 9, None, None, None, false, Some("x"), host(), None, 2, &mut store);
    assert_eq!(refused, Err(Error::Db(DbError::ConstraintViolation)));
    assert_eq!(Board::get("b", &store).unwrap().next_post_id(), 1);
    assert_eq!(store.posts.len(), 1);
    assert_eq!(reply(&mut store, "b", 1, None, false, 3), 2);
}

#[test]
fn posting_to_a_missing_board_is_not_found() {
    let (mut store, image) = store_with_board("b");
    let out = Post::create_thread(
        "nope", None, None, None, false, None, host(), image, 1, &mut store,
    );
    assert_eq!(out, Err(Error::NotFound));
    let out = Post::create("nope", 1, None, None, None, false, None, host(), None, 1, &mut store);
    assert_eq!(out, Err(Error::NotFound));
    assert!(store.posts.is_empty());
}

#[test]
fn a_reply_to_a_reply_is_refused() {
    let (mut store, image) = store_with_board("b");
    open_thread(&mut store, "b", image, None, 1);
    reply(&mut store, "b", 1, None, false, 2);
    let out = Post::create("b", 2, None, None, None, false, None, host(), None, 3, &mut store);
    assert_eq!(out, Err(Error::Db(DbError::ConstraintViolation)));
}

#[test]
fn an_unrecorded_image_is_refused() {
    let (mut store, _) = store_with_board("b");
    let stray = Image { hash: Uuid(99) };
    let out =
        Post::create_thread("b", None, None, None, false, None, host(), stray, 1, &mut store);
    assert_eq!(out, Err(Error::Db(DbError::ConstraintViolation)));
    assert_eq!(Board::get("b", &store).unwrap().next_post_id(), 0);
}

#[test]
fn a_full_counter_is_refused() {
    let (mut store, image) = store_with_board("b");
    store.boards[0].next_post_id = i32::MAX;
    let out =
        Post::create_thread("b", None, None, None, false, None, host(), image, 1, &mut store);
    assert_eq!(out, Err(Error::Db(DbError::OutOfRange)));
}

#[test]
fn a_thread_is_its_own_thread() {
    let (mut store, image) = store_with_board("b");
    let id = Post::create_thread(
        "b",
        Some("title"),
        Some("me"),
        Some("me@example.org"),
        true,
        Some("hello"),
        host(),
        image,
        42,
        &mut store,
    )
    .unwrap();
    let post = &store.posts[0];
    assert_eq!(post.id(), id);
    assert_eq!(post.thread(), id);
    assert_eq!(post.board(), "b");
    assert_eq!(post.title(), Some("title"));
    assert_eq!(post.author(), Some("me"));
    assert_eq!(post.email(), Some("me@example.org"));
    assert!(post.sage());
    assert_eq!(post.html_content(), "hello<br>");
    assert_eq!(post.plaintext_content.as_deref(), Some("hello"));
    assert_eq!(post.posted_at(), 42);
    assert_eq!(post.image(), Some(image.hash()));
    assert_eq!(post.ip, host());
}

#[test]
fn a_reply_records_its_edges() {
    let (mut store, image) = store_with_board("b");
    open_thread(&mut store, "b", image, None, 1);
    reply(&mut store, "b", 1, Some("first"), false, 2);
    let third = reply(&mut store, "b", 1, Some(">>1 and >>2 and >>7"), false, 3);
    assert_eq!(third, 3);
    assert_eq!(store.replies.len(), 2);
    let to_first = store.posts[0].replies(&store);
    assert_eq!(to_first.len(), 1);
    assert_eq!(to_first[0].id(), 3);
    assert_eq!(to_first[0].board(), "b");
    assert_eq!(to_first[0].thread(), 1);
    let to_second = store.posts[1].replies(&store);
    assert_eq!(to_second.len(), 1);
    assert_eq!(to_second[0].id(), 3);
    assert!(store.posts[2].replies(&store).is_empty());
}

#[test]
fn a_post_cannot_refer_to_itself() {
    let (mut store, image) = store_with_board("b");
    let id = open_thread(&mut store, "b", image, Some(">>1"), 1);
    assert_eq!(id, 1);
    assert_eq!(store.posts[0].html_content(), "&gt;&gt;1<br>");
    assert!(store.replies.is_empty());
}
