use arena_fetch::fetch::{plan, Direction};
use arena_fetch::headers::ChannelThumb;

fn thumb(length: u32) -> ChannelThumb {
    ChannelThumb {
        title: "Foo".to_string(),
        id: 1,
        slug: "foo".to_string(),
        created_at: "c".to_string(),
        updated_at: "u".to_string(),
        length,
        status: None,
        owner_id: None,
    }
}

#[test]
fn empty_channel_plans_no_requests() {
    let reqs = plan(&thumb(0), 100);
    assert!(reqs.is_empty());
}

#[test]
fn partial_last_page_rounds_up() {
    let reqs = plan(&thumb(250), 100);
    assert_eq!(reqs.len(), 3);
    for (i, r) in reqs.iter().enumerate() {
        assert_eq!(r.page, i as u32 + 1);
        assert_eq!(r.per, 100);
        assert_eq!(r.slug, "foo");
        assert_eq!(r.direction, Direction::Desc);
    }
}

#[test]
fn exact_multiple_needs_no_extra_page() {
    let reqs = plan(&thumb(200), 100);
    assert_eq!(reqs.len(), 2);
    assert_eq!(reqs[0].page, 1);
    assert_eq!(reqs[1].page, 2);
}

#[test]
fn one_item_needs_one_page() {
    let reqs = plan(&thumb(1), 100);
    assert_eq!(reqs.len(), 1);
    assert_eq!(reqs[0].page, 1);
}

#[test]
fn largest_channel_still_plans() {
    let reqs = plan(&thumb(u32::MAX), 100);
    assert_eq!(reqs.len(), 42949673);
    assert_eq!(reqs[0].page, 1);
    assert_eq!(reqs[reqs.len() - 1].page, 42949673);
}

#[test]
fn page_size_one() {
    let reqs = plan(&thumb(3), 1);
    assert_eq!(reqs.len(), 3);
    assert_eq!(reqs[2].page, 3);
}
