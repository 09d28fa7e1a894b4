use arena_fetch::fetch::{Fetcher, PageOutcome};
use arena_fetch::headers::{Class, Content};

fn item(id: u32) -> Content {
    Content {
        id,
        created_at: "c".to_string(),
        updated_at: "u".to_string(),
        slug: None,
        class: Class::Text,
        base_class: "Block".to_string(),
        content: None,
        content_html: Some(format!("<p>{}</p>", id)),
        position: 0,
        source: None,
        title: None,
        image: None,
        path: None,
        attachment: None,
        downloaded: Some(false),
    }
}

fn ids(contents: &[Content]) -> Vec<u32> {
    contents.iter().map(|c| c.id).collect()
}

#[test]
fn merge_ignores_completion_order() {
    let mut f = Fetcher::new("foo".to_string(), 3, 10);
    let s0 = f.start();
    let s1 = f.start();
    let s2 = f.start();
    assert_eq!((s0, s1, s2), (0, 1, 2));
    // Pages complete in the reverse of their page order.
    f.complete(s2, PageOutcome::Success(vec![item(31), item(32)]));
    f.complete(s0, PageOutcome::Success(vec![item(11)]));
    f.complete(s1, PageOutcome::Success(vec![item(21), item(22)]));
    let merged = f.finish();
    assert_eq!(merged.slug, "foo");
    assert_eq!(ids(&merged.contents), vec![11, 21, 22, 31, 32]);
}

#[test]
fn failed_page_degrades_to_empty() {
    let mut f = Fetcher::new("foo".to_string(), 3, 10);
    let s0 = f.start();
    let s1 = f.start();
    let s2 = f.start();
    f.complete(s0, PageOutcome::Success(vec![item(1), item(2)]));
    f.complete(s1, PageOutcome::Failure);
    f.complete(s2, PageOutcome::Success(vec![item(5), item(6)]));
    let merged = f.finish();
    assert_eq!(ids(&merged.contents), vec![1, 2, 5, 6]);
}

#[test]
fn window_never_exceeds_cap() {
    let mut f = Fetcher::new("foo".to_string(), 5, 2);
    assert!(f.can_start());
    let s0 = f.start();
    assert!(f.can_start());
    let s1 = f.start();
    // The window is full: a third page may not start yet.
    assert!(!f.can_start());
    assert!(f.has_in_flight());
    f.complete(s1, PageOutcome::Success(vec![item(21)]));
    // One outcome arrived, so one more page may start.
    assert!(f.can_start());
    let s2 = f.start();
    assert!(!f.can_start());
    f.complete(s0, PageOutcome::Success(vec![item(11)]));
    f.complete(s2, PageOutcome::Failure);
    assert!(f.can_start());
    let s3 = f.start();
    let s4 = f.start();
    assert!(!f.can_start());
    f.complete(s4, PageOutcome::Success(vec![item(51)]));
    f.complete(s3, PageOutcome::Success(vec![item(41)]));
    assert!(!f.has_in_flight());
    assert!(f.is_done());
    let merged = f.finish();
    assert_eq!(ids(&merged.contents), vec![11, 21, 41, 51]);
}

#[test]
fn zero_pages_short_circuits() {
    let f = Fetcher::new("empty".to_string(), 0, 10);
    assert!(f.is_done());
    assert!(!f.can_start());
    let merged = f.finish();
    assert_eq!(merged.slug, "empty");
    assert!(merged.contents.is_empty());
}

#[test]
fn all_pages_failed_still_returns() {
    let mut f = Fetcher::new("foo".to_string(), 2, 10);
    let s0 = f.start();
    let s1 = f.start();
    f.complete(s0, PageOutcome::Failure);
    f.complete(s1, PageOutcome::Failure);
    let merged = f.finish();
    assert_eq!(merged.slug, "foo");
    assert!(merged.contents.is_empty());
}
