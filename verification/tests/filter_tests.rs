use raindrop_sync::filter::{
    filter_by_cutoff, parse_timestamp, timestamp_after_epoch, timestamp_before_epoch,
    write_filtered_files, Cutoffs, Timestamp,
};
use raindrop_sync::models::Bookmark;

fn make_bookmark(last_update: &str) -> Bookmark {
    Bookmark {
        id: 1,
        title: "Test".to_string(),
        link: "https://example.com".to_string(),
        tags: vec![],
        collection_id: 1,
        collection: "Test".to_string(),
        created: last_update.to_string(),
        last_update: last_update.to_string(),
        excerpt: String::new(),
        kind: "link".to_string(),
    }
}

fn cutoff_at(text: &str) -> Timestamp {
    parse_timestamp(text).unwrap()
}

#[test]
fn test_filter_includes_items_after_cutoff() {
    let cutoff = cutoff_at("2024-06-01T00:00:00Z");

    let bookmarks = vec![
        make_bookmark("2024-06-02T10:00:00Z"),
        make_bookmark("2024-07-01T00:00:00Z"),
    ];

    let result = filter_by_cutoff(&bookmarks, &cutoff);
    assert_eq!(result.len(), 2);
}

#[test]
fn test_filter_excludes_items_before_cutoff() {
    let cutoff = cutoff_at("2024-06-01T00:00:00Z");

    let bookmarks = vec![
        make_bookmark("2024-05-31T23:59:59Z"),
        make_bookmark("2024-01-01T00:00:00Z"),
    ];

    let result = filter_by_cutoff(&bookmarks, &cutoff);
    assert_eq!(result.len(), 0);
}

#[test]
fn test_filter_includes_item_at_exact_cutoff() {
    let cutoff = cutoff_at("2024-06-01T00:00:00Z");

    let bookmarks = vec![make_bookmark("2024-06-01T00:00:00Z")];
    let result = filter_by_cutoff(&bookmarks, &cutoff);
    assert_eq!(result.len(), 1);
}

#[test]
fn test_filter_excludes_items_with_empty_timestamp() {
    let cutoff = cutoff_at("2024-01-01T00:00:00Z");

    let bookmarks = vec![make_bookmark("")];
    let result = filter_by_cutoff(&bookmarks, &cutoff);
    assert_eq!(result.len(), 0);
}

#[test]
fn test_filter_mixed_items() {
    let cutoff = cutoff_at("2024-06-01T00:00:00Z");

    let bookmarks = vec![
        make_bookmark("2024-05-15T10:00:00Z"), // before
        make_bookmark("2024-06-15T10:00:00Z"), // after
        make_bookmark("2024-07-01T00:00:00Z"), // after
        make_bookmark("2024-01-01T00:00:00Z"), // before
    ];

    let result = filter_by_cutoff(&bookmarks, &cutoff);
    assert_eq!(result.len(), 2);
    assert_eq!(result[0].last_update, "2024-06-15T10:00:00Z");
    assert_eq!(result[1].last_update, "2024-07-01T00:00:00Z");
}

#[test]
fn parse_timestamp_gives_the_unix_instant() {
    let t = parse_timestamp("2024-06-01T00:00:00Z").unwrap();
    assert_eq!(t.secs, 1_717_200_000);
    assert_eq!(t.nanos, 0);
    let t = parse_timestamp("1970-01-01T00:00:01.5+00:00").unwrap();
    assert_eq!(t.secs, 1);
    assert_eq!(t.nanos, 500_000_000);
}

#[test]
fn parse_timestamp_applies_the_offset() {
    let t = parse_timestamp("2024-06-01T02:00:00+02:00").unwrap();
    assert_eq!(t.secs, 1_717_200_000);
}

#[test]
fn parse_timestamp_refuses_garbage() {
    assert!(parse_timestamp("").is_none());
    assert!(parse_timestamp("yesterday").is_none());
    assert!(parse_timestamp("2024-02-30T00:00:00Z").is_none());
}

#[test]
fn filter_compares_instants_not_texts() {
    let cutoff = cutoff_at("2024-06-01T00:00:00Z");
    let bookmarks = vec![
        make_bookmark("2024-06-01T01:00:00+02:00"), // 23:00 the day before in UTC
        make_bookmark("2024-05-31T22:00:00-03:00"), // 01:00 in UTC
    ];
    let result = filter_by_cutoff(&bookmarks, &cutoff);
    assert_eq!(result.len(), 1);
    assert_eq!(result[0].last_update, "2024-05-31T22:00:00-03:00");
}

#[test]
fn later_cutoff_keeps_fewer() {
    let bookmarks = vec![
        make_bookmark("2024-05-15T10:00:00Z"),
        make_bookmark("2024-06-15T10:00:00Z"),
        make_bookmark("2024-07-01T00:00:00Z"),
    ];
    let early = filter_by_cutoff(&bookmarks, &cutoff_at("2024-05-01T00:00:00Z"));
    let late = filter_by_cutoff(&bookmarks, &cutoff_at("2024-06-20T00:00:00Z"));
    assert_eq!(early.len(), 3);
    assert_eq!(late.len(), 1);
    assert!(late.iter().all(|b| early.iter().any(|e| e.last_update == b.last_update)));
}

#[test]
fn write_filtered_files_plans_three_views() {
    let bookmarks = vec![
        make_bookmark("2024-05-15T10:00:00Z"),
        make_bookmark("2024-06-03T08:00:00Z"),
        make_bookmark("2024-06-05T09:00:00Z"),
        make_bookmark("not a date"),
    ];
    let cutoffs = Cutoffs {
        day: cutoff_at("2024-06-05T00:00:00Z"),
        week: cutoff_at("2024-06-03T00:00:00Z"),
        month: cutoff_at("2024-06-01T00:00:00Z"),
    };
    let out = write_filtered_files(&bookmarks, "/data", &cutoffs);
    assert_eq!(out.files.len(), 3);
    assert_eq!(out.files[0].path, "/data/last_day_bookmarks.json");
    assert_eq!(out.files[1].path, "/data/last_week_bookmarks.json");
    assert_eq!(out.files[2].path, "/data/last_month_bookmarks.json");
    assert_eq!(out.counts.day, 1);
    assert_eq!(out.counts.week, 2);
    assert_eq!(out.counts.month, 2);
    assert_eq!(out.files[0].items[0].last_update, "2024-06-05T09:00:00Z");
    assert_eq!(out.files[1].items[0].last_update, "2024-06-03T08:00:00Z");
    assert_eq!(out.files[1].items.len(), out.counts.week);
}

#[test]
fn timestamps_around_the_epoch() {
    let t = timestamp_after_epoch(5, 7);
    assert_eq!((t.secs, t.nanos), (5, 7));
    let t = timestamp_before_epoch(1, 500_000_000);
    assert_eq!((t.secs, t.nanos), (-2, 500_000_000));
    let t = timestamp_before_epoch(3, 0);
    assert_eq!((t.secs, t.nanos), (-3, 0));
}

#[test]
fn view_files_carry_their_names() {
    let bookmarks = vec![make_bookmark("2024-06-05T09:00:00Z")];
    let t = cutoff_at("2024-06-01T00:00:00Z");
    let out = write_filtered_files(&bookmarks, "", &Cutoffs { day: t, week: t, month: t });
    assert_eq!(out.files[0].name, "last_day_bookmarks.json");
    assert_eq!(out.files[1].name, "last_week_bookmarks.json");
    assert_eq!(out.files[2].name, "last_month_bookmarks.json");
    assert_eq!(out.files[0].path, "last_day_bookmarks.json");
}
