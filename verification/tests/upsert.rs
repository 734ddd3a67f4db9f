use feed_ingest::feed::FetchedFeed;
use feed_ingest::feed::FetchedFeedItem;
use feed_ingest::feed::RawFeedDocument;
use feed_ingest::feed::RawFeedEntry;
use feed_ingest::store::FeedItemStore;
use feed_ingest::store::StorageError;

fn fetched(guid: &str, title: &str, link: &str, publication_date: i64) -> FetchedFeedItem {
    FetchedFeedItem {
        title: title.to_string(),
        description: format!("about {}", title),
        link: link.to_string(),
        author: "Author".to_string(),
        guid: guid.to_string(),
        categories: vec!["1".to_string(), "2".to_string()],
        publication_date,
    }
}

#[test]
fn test_upsert_inserts_new_rows() {
    let mut store = FeedItemStore::new();
    store.add_feed(3);
    let items = vec![fetched("Guid1", "FeedItem1", "Link1", 10), fetched(
        "Guid2",
        "FeedItem2",
        "Link2",
        11,
    )];
    let now = 1000;
    let rows = store.create(3, items, now).unwrap();
    assert_eq!(rows.len(), 2);
    let first = rows.iter().find(|r| r.guid == "Guid1").unwrap();
    assert_eq!(first.feed_id, 3);
    assert_eq!(first.title, "FeedItem1");
    assert_eq!(first.description, "about FeedItem1");
    assert_eq!(first.link, "Link1");
    assert_eq!(first.categories, vec!["1".to_string(), "2".to_string()]);
    assert_eq!(first.publication_date, 10);
    assert_eq!(first.created_at, now);
    assert_eq!(first.updated_at, now);
    let second = rows.iter().find(|r| r.guid == "Guid2").unwrap();
    assert_eq!(second.title, "FeedItem2");
    assert_eq!(store.row_count(), 2);
}

#[test]
fn test_upsert_idempotent() {
    // The same entry upserted twice with identical content: one row, whose
    // created_at is unchanged and whose updated_at is non-decreasing.
    let mut store = FeedItemStore::new();
    store.add_feed(1);
    let t1 = 100;
    let t2 = 200;
    let first = store.create(1, vec![fetched("g", "T", "L", 5)], t1).unwrap();
    assert_eq!(first.len(), 1);
    assert_eq!(first[0].created_at, t1);
    assert_eq!(first[0].updated_at, t1);
    let second = store.create(1, vec![fetched("g", "T", "L", 5)], t2).unwrap();
    assert_eq!(second.len(), 1);
    assert_eq!(store.row_count(), 1);
    assert_eq!(second[0].id, first[0].id);
    assert_eq!(second[0].created_at, t1);
    assert_eq!(second[0].updated_at, t2);
    assert!(second[0].updated_at >= first[0].updated_at);
}

#[test]
fn test_upsert_update_law() {
    // An existing row for (feed_id=7, guid="g1") with title "Old": upserting
    // (7, "g1", title "New") yields exactly one row with title "New" and the
    // original created_at preserved.
    let mut store = FeedItemStore::new();
    store.add_feed(7);
    let t1 = 100;
    let old_rows = store.create(7, vec![fetched("g1", "Old", "L", 5)], t1).unwrap();
    assert_eq!(old_rows[0].title, "Old");
    let t2 = 250;
    let new_rows = store.create(7, vec![fetched("g1", "New", "L", 6)], t2).unwrap();
    assert_eq!(new_rows.len(), 1);
    assert_eq!(store.row_count(), 1);
    assert_eq!(new_rows[0].title, "New");
    assert_eq!(new_rows[0].created_at, old_rows[0].created_at);
    assert_eq!(new_rows[0].id, old_rows[0].id);
    assert_eq!(new_rows[0].updated_at, t2);
}

#[test]
fn test_upsert_foreign_key_violation_is_atomic() {
    // A batch naming an unknown feed persists nothing at all.
    let mut store = FeedItemStore::new();
    store.add_feed(5);
    store.create(5, vec![fetched("a", "A", "LA", 1)], 10).unwrap();
    assert_eq!(store.row_count(), 1);
    let result = store.create(
        9,
        vec![fetched("b", "B", "LB", 2), fetched("c", "C", "LC", 3)],
        20,
    );
    assert!(matches!(result, Err(StorageError::ForeignKeyViolation)));
    assert_eq!(store.row_count(), 1);
}

#[test]
fn test_upsert_bumps_updated_at_without_content_change() {
    // updated_at reflects "last seen", not "last changed": a no-op content
    // update still moves it.
    let mut store = FeedItemStore::new();
    store.add_feed(2);
    store.create(2, vec![fetched("g", "Same", "L", 4)], 50).unwrap();
    let rows = store.create(2, vec![fetched("g", "Same", "L", 4)], 60).unwrap();
    assert_eq!(rows[0].updated_at, 60);
    assert_eq!(rows[0].created_at, 50);
}

#[test]
fn test_empty_guids_collide_under_upsert_key() {
    // Entries without a guid normalize to the empty guid and collide with
    // each other under the (feed_id, guid) key: a known degenerate case.
    let mut store = FeedItemStore::new();
    store.add_feed(1);
    let rows = store.create(
        1,
        vec![fetched("", "First", "L1", 1), fetched("", "Second", "L2", 2)],
        30,
    ).unwrap();
    assert_eq!(store.row_count(), 1);
    assert_eq!(rows.len(), 1);
    // The later entry won the key: update in place.
    assert_eq!(rows[0].title, "Second");
}

#[test]
fn test_end_to_end_ingestion() {
    // Raw document with two linked entries -> two normalized entries in
    // order -> two persisted rows with those guids, feed_id 1, and equal
    // created_at/updated_at on first insertion.
    let doc = RawFeedDocument {
        title: "Feed".to_string(),
        link: "http://example.org".to_string(),
        description: "d".to_string(),
        entries: vec![
            RawFeedEntry {
                title: Some("T1".to_string()),
                description: None,
                link: Some("L1".to_string()),
                author: None,
                guid: Some("G1".to_string()),
                categories: Vec::new(),
                pub_date: None,
            },
            RawFeedEntry {
                title: Some("T2".to_string()),
                description: None,
                link: Some("L2".to_string()),
                author: None,
                guid: Some("G2".to_string()),
                categories: Vec::new(),
                pub_date: None,
            },
        ],
    };
    let now = 400;
    let feed = FetchedFeed::from_document(&doc, now);
    assert_eq!(feed.items.len(), 2);
    assert_eq!(feed.items[0].guid, "G1");
    assert_eq!(feed.items[1].guid, "G2");

    let mut store = FeedItemStore::new();
    store.add_feed(1);
    let rows = store.create(1, feed.items, now).unwrap();
    assert_eq!(rows.len(), 2);
    for row in &rows {
        assert_eq!(row.feed_id, 1);
        assert_eq!(row.created_at, row.updated_at);
    }
    assert!(rows.iter().any(|r| r.guid == "G1"));
    assert!(rows.iter().any(|r| r.guid == "G2"));
}

#[test]
fn test_new_feed_item_binds_entry_to_feed() {
    let entry = fetched("g9", "Title9", "Link9", 99);
    let bound = feed_ingest::store::NewFeedItem::from_fetched(9, &entry);
    assert_eq!(bound.feed_id, 9);
    assert_eq!(bound.title, "Title9");
    assert_eq!(bound.guid, "g9");
    assert_eq!(bound.link, "Link9");
    assert_eq!(bound.publication_date, 99);
    assert_eq!(bound.categories, entry.categories);
}
