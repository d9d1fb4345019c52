use magichawk::cache::ScryfallCache;
use std::io::Cursor;

fn tiny_jpeg() -> Vec<u8> {
    let img = image::DynamicImage::new_rgb8(2, 2);
    let mut buf: Vec<u8> = Vec::new();
    img.write_to(
        &mut Cursor::new(&mut buf),
        image::ImageOutputFormat::Jpeg(90),
    )
    .unwrap();
    buf
}

#[test]
fn insert_then_get() {
    let mut cache = ScryfallCache::new(1000);
    let bytes = tiny_jpeg();
    assert!(!cache.contains("uri-a"));
    assert_eq!(cache.insert_image("uri-a", &bytes, 1200), Some(()));
    assert!(cache.contains("uri-a"));
    assert!(cache.get("uri-a").is_some());
    assert!(cache.get("uri-b").is_none());
}

#[test]
fn decode_failure_leaves_cache_unchanged() {
    let mut cache = ScryfallCache::new(0);
    let garbage = vec![1u8, 2, 3, 4, 5];
    assert_eq!(cache.insert_image("uri-a", &garbage, 10), None);
    assert!(!cache.contains("uri-a"));
    assert!(cache.get("uri-a").is_none());
}

#[test]
fn purge_zero_empties_and_get_misses() {
    let mut cache = ScryfallCache::new(0);
    let bytes = tiny_jpeg();
    cache.insert_image("uri-a", &bytes, 10).unwrap();
    cache.insert_image("uri-b", &bytes, 20).unwrap();
    cache.purge(30, Some(0));
    assert!(cache.get("uri-a").is_none());
    assert!(cache.get("uri-b").is_none());
    assert!(!cache.contains("uri-a"));
}

#[test]
fn purge_unbounded_keeps_everything() {
    let mut cache = ScryfallCache::new(0);
    let bytes = tiny_jpeg();
    cache.insert_image("uri-a", &bytes, 10).unwrap();
    cache.insert_image("uri-b", &bytes, 20).unwrap();
    cache.purge(1000, Some(u64::MAX));
    assert!(cache.contains("uri-a"));
    assert!(cache.contains("uri-b"));
}

#[test]
fn purge_default_age_is_fourteen_days() {
    let day_ms: u64 = 24 * 3600 * 1000;
    let mut cache = ScryfallCache::new(0);
    let bytes = tiny_jpeg();
    cache.insert_image("old", &bytes, 0).unwrap();
    cache.insert_image("fresh", &bytes, 10 * day_ms).unwrap();
    cache.purge(15 * day_ms, None);
    assert!(!cache.contains("old"));
    assert!(cache.contains("fresh"));
}

#[test]
fn insert_is_idempotent_per_uri() {
    let mut cache = ScryfallCache::new(0);
    let bytes = tiny_jpeg();
    cache.insert_image("uri-a", &bytes, 10).unwrap();
    // A second insert for a cached URI does not refresh the stamp.
    cache.insert_image("uri-a", &bytes, 500).unwrap();
    cache.purge(600, Some(200));
    assert!(!cache.contains("uri-a"));
}
