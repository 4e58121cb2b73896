use base64::Engine;
use rand::Rng;
use rand::SeedableRng;
use softerworld::comic::{assemble_comic, ComicRecord};
use softerworld::errors::ServiceError;
use softerworld::feed::{build_feed, day_of_unix_time, select_feed_ids, FEED_ITEM_COUNT};
use softerworld::text::{comic_page_url, u64_to_string};

#[test]
fn day_number_is_floor_of_division() {
    assert_eq!(day_of_unix_time(0), 0);
    assert_eq!(day_of_unix_time(86399), 0);
    assert_eq!(day_of_unix_time(86400), 1);
    assert_eq!(day_of_unix_time(1700000000), 19675);
}

#[test]
fn decimal_rendering() {
    assert_eq!(u64_to_string(0), "0");
    assert_eq!(u64_to_string(7), "7");
    assert_eq!(u64_to_string(42), "42");
    assert_eq!(u64_to_string(1234567890), "1234567890");
}

#[test]
fn page_urls() {
    assert_eq!(
        comic_page_url(None),
        "https://www.asofterworld.com/index.php"
    );
    assert_eq!(
        comic_page_url(Some(7)),
        "https://www.asofterworld.com/index.php?id=7"
    );
}

#[test]
fn selection_is_deterministic_across_renders() {
    let day = 20000u64;
    let first = select_feed_ids(day, 100).unwrap();
    let second = select_feed_ids(day, 100).unwrap();
    assert_eq!(first, second);
    assert_eq!(first.len() as u64, FEED_ITEM_COUNT);
    for id in &first {
        assert!((1..=100).contains(id));
    }
    // Changing the maximum may change the selection (range-dependent draw),
    // but determinism holds again for the new range.
    let third = select_feed_ids(day, 100000).unwrap();
    assert_eq!(third, select_feed_ids(day, 100000).unwrap());
}

#[test]
fn selection_matches_day_seeded_generator() {
    // The selection is exactly one draw per day, seeded with the day number.
    let day = 19999u64;
    let ids = select_feed_ids(day, 1000).unwrap();
    for (offset, id) in ids.iter().enumerate() {
        let mut rng = rand::rngs::SmallRng::seed_from_u64(day - offset as u64);
        let expected: u64 = rng.random_range(1..=1000u64);
        assert_eq!(*id, expected);
    }
}

#[test]
fn selection_of_singleton_range() {
    let ids = select_feed_ids(50, 1).unwrap();
    assert_eq!(ids, vec![1u64; 10]);
}

#[test]
fn empty_range_is_a_seed_range_error() {
    assert_eq!(select_feed_ids(20000, 0), Err(ServiceError::SeedRange));
}

#[test]
fn assembled_record_embeds_standard_base64() {
    let bytes: Vec<u8> = b"png bytes".to_vec();
    let rec = assemble_comic(
        Some(7),
        "T".to_string(),
        "http://x/img.png".to_string(),
        &bytes,
    );
    assert_eq!(rec.id, Some(7));
    assert_eq!(rec.title, "T");
    assert_eq!(rec.image_url, "http://x/img.png");
    assert_eq!(
        rec.image_base64,
        base64::engine::general_purpose::STANDARD.encode(b"png bytes")
    );
    assert_eq!(rec.image_base64, "cG5nIGJ5dGVz");
}

#[test]
fn feed_document_renders_items() {
    let ids: Vec<u64> = vec![7];
    let records = vec![ComicRecord {
        id: Some(7),
        title: "T".to_string(),
        image_url: "http://x/img.png".to_string(),
        image_base64: String::new(),
    }];
    let doc = build_feed(&ids, &records);
    assert_eq!(doc.content_type, "text/html");
    assert!(doc.body.contains("<rss"));
    assert!(doc.body.contains("<title>A Softer World</title>"));
    assert!(doc.body.contains("<title>7</title>"));
    assert!(doc
        .body
        .contains("https://www.asofterworld.com/index.php?id=7"));
    assert!(doc.body.contains("http://x/img.png"));
    assert!(doc.body.contains("xmlns:atom=\"http://www.w3.org/2005/Atom\""));
    assert!(doc.body.contains("xmlns:dc=\"http://purl.org/dc/elements/1.1/\""));
    assert!(doc.body.contains("us-en"));
}
