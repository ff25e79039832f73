use ruburu::ident::Uuid;
use ruburu::models::{
    Board, Captcha, Challenge, Image, Post, Reply, ReplyEdge, StoredFile,
};
use ruburu::net::IpNetwork;
use ruburu::store::Store;
use ruburu::validate::keeps_file;

fn busy_store() -> Store {
    let mut store = Store::new();
    Board::create("b", "Random", &mut store).unwrap();
    Board::create("a", "Anime", &mut store).unwrap();
    let image = Image::record(Uuid(1), &[1], Ok(vec![2]), &mut store).unwrap();
    let host = IpNetwork::host_v4(1);
    Post::create_thread("b", None, None, None, false, Some("one"), host, image, 1, &mut store)
        .unwrap();
    Post::create_thread("a", None, None, None, false, Some("two"), host, image, 2, &mut store)
        .unwrap();
    Post::create("b", 1, None, None, None, true, Some(">>1"), host, None, 3, &mut store).unwrap();
    Captcha::issue(Uuid(9), String::new(), "abc".to_string(), &mut store).unwrap();
    store
}

#[test]
fn stores_made_by_the_operations_are_valid() {
    assert!(Store::new().is_valid());
    let store = busy_store();
    assert!(store.is_valid());
    assert!(store.boards_valid());
    assert!(store.posts_valid());
    assert!(store.replies_valid());
    assert!(store.images_valid());
    assert!(store.captchas_valid());
    assert!(store.numbering_valid(0));
    assert!(store.numbering_valid(1));
}

#[test]
fn boards_out_of_order_are_invalid() {
    let mut store = busy_store();
    store.boards.swap(0, 1);
    assert!(!store.boards_valid());
    assert!(!store.is_valid());
}

#[test]
fn a_repeated_board_is_invalid() {
    let mut store = Store::new();
    Board::create("b", "Random", &mut store).unwrap();
    store.boards.push(Board { name: "b".to_string(), title: String::new(), next_post_id: 0 });
    assert!(!store.is_valid());
}

#[test]
fn a_negative_counter_is_invalid() {
    let mut store = Store::new();
    Board::create("b", "Random", &mut store).unwrap();
    store.boards[0].next_post_id = -1;
    assert!(!store.is_valid());
}

#[test]
fn a_gap_in_the_ids_is_invalid() {
    let mut store = busy_store();
    store.posts[2].id = 3;
    assert!(!store.numbering_valid(1));
    assert!(!store.is_valid());
}

#[test]
fn a_repeated_id_is_invalid() {
    let mut store = busy_store();
    store.posts[2].id = 1;
    assert!(!store.is_valid());
}

#[test]
fn a_counter_that_runs_ahead_or_behind_is_invalid() {
    let mut store = busy_store();
    store.boards[1].next_post_id = 3;
    assert!(!store.is_valid());
    store.boards[1].next_post_id = 1;
    assert!(!store.is_valid());
    store.boards[1].next_post_id = 2;
    assert!(store.is_valid());
}

#[test]
fn a_post_on_a_missing_board_is_invalid() {
    let mut store = busy_store();
    store.posts[1].board = "c".to_string();
    assert!(!store.posts_valid());
}

#[test]
fn a_post_in_a_missing_thread_is_invalid() {
    let mut store = busy_store();
    store.posts[2].thread = 5;
    assert!(!store.posts_valid());
}

#[test]
fn a_post_with_an_unrecorded_image_is_invalid() {
    let mut store = busy_store();
    store.posts[0].image = Some(Uuid(5));
    assert!(!store.posts_valid());
}

#[test]
fn an_edge_without_its_ends_is_invalid() {
    let mut store = busy_store();
    assert_eq!(store.replies.len(), 1);
    store.replies.push(ReplyEdge {
        message_id: 7,
        message_board: "b".to_string(),
        reply: Reply { reply_id: 2, reply_board: "b".to_string(), reply_thread: 1 },
    });
    assert!(!store.replies_valid());
    store.replies[1].message_id = 1;
    assert!(store.replies_valid());
    store.replies[1].reply.reply_thread = 2;
    assert!(!store.replies_valid());
}

#[test]
fn an_image_without_its_files_is_invalid() {
    let mut store = busy_store();
    store.thumbnails.clear();
    assert!(!store.images_valid());
    let mut store = busy_store();
    store.originals.clear();
    assert!(!store.images_valid());
    let mut store = busy_store();
    store.images.push(Image { hash: Uuid(1) });
    assert!(!store.images_valid());
}

#[test]
fn an_orphan_file_is_valid() {
    let mut store = busy_store();
    store.originals.push(StoredFile { hash: Uuid(77), bytes: vec![] });
    assert!(store.is_valid());
    assert!(keeps_file(&store.originals, Uuid(77)));
    assert!(!keeps_file(&store.thumbnails, Uuid(77)));
}

#[test]
fn a_repeated_token_is_invalid() {
    let mut store = busy_store();
    store.captchas.push(Challenge { id: Uuid(9), solution: String::new() });
    assert!(!store.captchas_valid());
    assert!(!store.is_valid());
}
