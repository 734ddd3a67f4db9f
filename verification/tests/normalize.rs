use feed_ingest::feed::FetchedFeed;
use feed_ingest::feed::RawFeedDocument;
use feed_ingest::feed::RawFeedEntry;
use feed_ingest::time_parse::parse_time;

fn entry(
    link: Option<&str>,
    title: Option<&str>,
    guid: Option<&str>,
    pub_date: Option<&str>,
) -> RawFeedEntry {
    RawFeedEntry {
        title: title.map(|s| s.to_string()),
        description: None,
        link: link.map(|s| s.to_string()),
        author: None,
        guid: guid.map(|s| s.to_string()),
        categories: Vec::new(),
        pub_date: pub_date.map(|s| s.to_string()),
    }
}

fn document(entries: Vec<RawFeedEntry>) -> RawFeedDocument {
    RawFeedDocument {
        title: "Feed Title".to_string(),
        link: "http://example.org/feed".to_string(),
        description: "A feed".to_string(),
        entries,
    }
}

#[test]
fn test_normalize_excludes_linkless_entries() {
    let doc = document(vec![
        entry(Some("L1"), Some("T1"), Some("G1"), None),
        entry(None, Some("T2"), Some("G2"), None),
        entry(Some("L3"), Some("T3"), Some("G3"), None),
    ]);
    let feed = FetchedFeed::from_document(&doc, 42);
    assert!(feed.items.len() <= doc.entries.len());
    assert_eq!(feed.items.len(), 2);
    assert_eq!(feed.items[0].link, "L1");
    assert_eq!(feed.items[1].link, "L3");
}

#[test]
fn test_parse_time_unparseable_falls_back_to_now() {
    assert_eq!(parse_time(Some("not a date at all"), 555), 555);
    assert_eq!(parse_time(Some(""), 555), 555);
    assert_eq!(parse_time(None, 555), 555);
}

#[test]
fn test_parse_time_parses_rfc2822() {
    // The fallback instant 0 must not be used for a well-formed date.
    assert_eq!(parse_time(Some("Wed, 18 Feb 2015 23:16:09 GMT"), 0), 1424301369);
    // An offset is converted to the canonical (UTC) instant.
    assert_eq!(parse_time(Some("Tue, 19 Oct 2004 13:09:11 +0200"), 0), 1098184151);
}

#[test]
fn test_dedup_keeps_nonadjacent_duplicate() {
    // Entries [A, A, B, A]: the final A is retained because it is not
    // adjacent to an earlier A.
    let doc = document(vec![
        entry(Some("LA"), Some("TA"), Some("G1"), None),
        entry(Some("LA"), Some("TA"), Some("G2"), None),
        entry(Some("LB"), Some("TB"), Some("G3"), None),
        entry(Some("LA"), Some("TA"), Some("G4"), None),
    ]);
    let feed = FetchedFeed::from_document(&doc, 0);
    assert_eq!(feed.items.len(), 3);
    assert_eq!(feed.items[0].title, "TA");
    assert_eq!(feed.items[1].title, "TB");
    assert_eq!(feed.items[2].title, "TA");
    // The first of the adjacent run is the one kept.
    assert_eq!(feed.items[0].guid, "G1");
}

#[test]
fn test_dedup_requires_both_link_and_title_equal() {
    // Same link but different titles: not duplicates.
    let doc = document(vec![
        entry(Some("LA"), Some("TA"), Some("G1"), None),
        entry(Some("LA"), Some("TB"), Some("G2"), None),
    ]);
    let feed = FetchedFeed::from_document(&doc, 0);
    assert_eq!(feed.items.len(), 2);
}

#[test]
fn test_normalize_copies_feed_fields_verbatim() {
    let doc = document(vec![entry(Some("L1"), Some("T1"), Some("G1"), None)]);
    let feed = FetchedFeed::from_document(&doc, 0);
    assert_eq!(feed.title, "Feed Title");
    assert_eq!(feed.link, "http://example.org/feed");
    assert_eq!(feed.description, "A feed");
}

#[test]
fn test_normalize_defaults_missing_fields() {
    let now = 777;
    let doc = document(vec![entry(Some("only-link"), None, None, None)]);
    let feed = FetchedFeed::from_document(&doc, now);
    assert_eq!(feed.items.len(), 1);
    let item = &feed.items[0];
    assert_eq!(item.title, "");
    assert_eq!(item.description, "");
    assert_eq!(item.author, "");
    assert_eq!(item.guid, "");
    assert!(item.categories.is_empty());
    assert_eq!(item.publication_date, now);
}

#[test]
fn test_normalize_empty_document() {
    let doc = document(Vec::new());
    let feed = FetchedFeed::from_document(&doc, 0);
    assert!(feed.items.is_empty());
}

#[test]
fn test_normalize_parses_entry_dates() {
    let doc = document(vec![
        entry(Some("L1"), Some("T1"), Some("G1"), Some("Wed, 18 Feb 2015 23:16:09 GMT")),
        entry(Some("L2"), Some("T2"), Some("G2"), Some("garbled")),
    ]);
    let now = 999;
    let feed = FetchedFeed::from_document(&doc, now);
    assert_eq!(feed.items[0].publication_date, 1424301369);
    assert_eq!(feed.items[1].publication_date, now);
}

#[test]
fn test_normalize_now_falls_back_to_wall_clock() {
    // With no injected instant, an unparseable date becomes "now" at call
    // time, within the window of the surrounding clock reads.
    let doc = document(vec![entry(Some("L1"), Some("T1"), Some("G1"), Some("garbled"))]);
    let before = chrono::Utc::now().timestamp();
    let feed = FetchedFeed::from_document_now(&doc);
    let after = chrono::Utc::now().timestamp();
    let pd = feed.items[0].publication_date;
    assert!(before <= pd && pd <= after);
}

#[test]
fn test_rss_reader_keeps_url() {
    let reader = feed_ingest::feed::RssReader::new("http://example.org/rss".to_string());
    assert_eq!(reader.url, "http://example.org/rss");
}
