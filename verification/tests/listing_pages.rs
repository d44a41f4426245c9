use blog_server::store::Store;

/// Three posts with distinct modification times: id 1 at 100, id 2
/// at 300, id 3 at 200.
fn store_with_posts() -> Store {
    let mut store = Store::new();
    let tags: Vec<String> = vec![];
    store.create_post("a", "", 1, &tags, 0, 100).expect("fresh");
    store.create_post("b", "", 1, &tags, 0, 300).expect("fresh");
    store.create_post("c", "", 1, &tags, 0, 200).expect("fresh");
    store
}

#[test]
fn recent_posts_orders_by_modification_desc() {
    let store = store_with_posts();
    assert_eq!(store.recent_posts(10), vec![2, 3, 1]);
}

#[test]
fn recent_posts_returns_at_most_count() {
    let store = store_with_posts();
    assert_eq!(store.recent_posts(2), vec![2, 3]);
    assert_eq!(store.recent_posts(0), Vec::<i32>::new());
    assert_eq!(store.recent_posts(-3), Vec::<i32>::new());
}

#[test]
fn posts_by_pages_with_offset() {
    let store = store_with_posts();
    assert_eq!(store.posts_by(1, 2), vec![3, 1]);
    assert_eq!(store.posts_by(3, 2), Vec::<i32>::new());
    assert_eq!(store.posts_by(-1, 2), vec![2, 3]);
}

#[test]
fn equal_times_break_toward_the_higher_id() {
    let mut store = Store::new();
    let tags: Vec<String> = vec![];
    store.create_post("a", "", 1, &tags, 0, 100).expect("fresh");
    store.create_post("b", "", 1, &tags, 0, 100).expect("fresh");
    assert_eq!(store.recent_posts(10), vec![2, 1]);
}

#[test]
fn headers_carry_id_title_author_and_times() {
    let store = store_with_posts();
    let headers = store.post_header_by(0, 10);
    assert_eq!(headers.len(), 3);
    assert_eq!(headers[0].id, 2);
    assert_eq!(headers[0].title, "b");
    assert_eq!(headers[0].author, 1);
    assert_eq!(headers[0].modified_at, 300);
    assert_eq!(headers[1].id, 3);
    assert_eq!(headers[2].id, 1);
}

#[test]
fn listing_an_empty_table_is_empty() {
    let store = Store::new();
    assert_eq!(store.recent_posts(5), Vec::<i32>::new());
    assert_eq!(store.post_header_by(0, 5).len(), 0);
}
