use raindrop_sync::api::{
    collections_url, decimal, merge_collections, page_query, raindrops_url, PageStep,
    RaindropPager, CHILD_COLLECTIONS_PATH, ROOT_COLLECTIONS_PATH,
};
use raindrop_sync::models::{ApiCollection, ApiRaindrop};

fn raindrop(id: i64) -> ApiRaindrop {
    ApiRaindrop {
        id,
        title: None,
        link: format!("https://example.com/{id}"),
        tags: None,
        collection: None,
        created: None,
        last_update: None,
        excerpt: None,
        kind: None,
    }
}

fn page_of(first: i64, n: i64) -> Vec<ApiRaindrop> {
    (first..first + n).map(raindrop).collect()
}

#[test]
fn decimal_matches_to_string() {
    for n in [0u32, 7, 10, 50, 99, 100, 12345, u32::MAX] {
        assert_eq!(decimal(n), n.to_string());
    }
}

#[test]
fn urls() {
    assert_eq!(raindrops_url(), "https://api.raindrop.io/rest/v1/raindrops/0");
    assert_eq!(
        collections_url(ROOT_COLLECTIONS_PATH),
        "https://api.raindrop.io/rest/v1/collections"
    );
    assert_eq!(
        collections_url(CHILD_COLLECTIONS_PATH),
        "https://api.raindrop.io/rest/v1/collections/childrens"
    );
}

#[test]
fn page_query_pairs() {
    let q = page_query(3);
    assert_eq!(
        q,
        vec![
            ("perpage".to_string(), "50".to_string()),
            ("page".to_string(), "3".to_string())
        ]
    );
}

#[test]
fn pager_walks_until_a_short_page() {
    let mut pager = RaindropPager::new();
    assert_eq!(pager.page(), 0);
    assert!(!pager.is_finished());
    let req = pager.request();
    assert_eq!(req.url, "https://api.raindrop.io/rest/v1/raindrops/0");
    assert_eq!(req.query[1].1, "0");

    match pager.record_page(page_of(0, 50)) {
        PageStep::Fetch { page } => assert_eq!(page, 1),
        PageStep::Finished => panic!("a full page asks for the next one"),
    }
    assert_eq!(pager.request().query[1].1, "1");
    match pager.record_page(page_of(50, 50)) {
        PageStep::Fetch { page } => assert_eq!(page, 2),
        PageStep::Finished => panic!("a full page asks for the next one"),
    }
    match pager.record_page(page_of(100, 3)) {
        PageStep::Finished => {}
        PageStep::Fetch { .. } => panic!("a short page ends the listing"),
    }
    assert!(pager.is_finished());
    assert_eq!(pager.page(), 2);
    let items = pager.into_items();
    assert_eq!(items.len(), 103);
    assert!(items.iter().enumerate().all(|(i, r)| r.id == i as i64));
}

#[test]
fn pager_empty_first_page_finishes() {
    let mut pager = RaindropPager::new();
    assert!(matches!(pager.record_page(vec![]), PageStep::Finished));
    assert!(pager.into_items().is_empty());
}

#[test]
fn merge_keeps_root_then_children() {
    let all = merge_collections(
        vec![ApiCollection { id: 1, title: "a".to_string() }],
        vec![
            ApiCollection { id: 2, title: "b".to_string() },
            ApiCollection { id: 3, title: "c".to_string() },
        ],
    );
    let ids: Vec<i64> = all.iter().map(|c| c.id).collect();
    assert_eq!(ids, vec![1, 2, 3]);
}
