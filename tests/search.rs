use std::collections::HashSet;

use galarie::cache::CacheSnapshot;
use galarie::indexer::{attributes_from_tags, MediaFile, MediaType, Timestamp};
use galarie::search::{
    normalize_page, normalize_page_size, SearchQuery, SearchService, DEFAULT_PAGE_SIZE,
    MAX_PAGE_SIZE,
};
use galarie::tags::{Tag, TagKind};

fn simple_tag(name: &str) -> Tag {
    Tag {
        raw_token: name.into(),
        kind: TagKind::Simple,
        name: name.to_lowercase(),
        value: None,
        normalized: name.to_lowercase(),
    }
}

fn kv_tag(key: &str, value: &str) -> Tag {
    Tag {
        raw_token: format!("{key}-{value}"),
        kind: TagKind::KeyValue,
        name: key.to_lowercase(),
        value: Some(value.to_lowercase()),
        normalized: format!("{}={}", key.to_lowercase(), value.to_lowercase()),
    }
}

fn media(id: &str, tags: Vec<Tag>) -> MediaFile {
    let attributes = attributes_from_tags(&tags);
    MediaFile {
        id: id.to_string(),
        relative_path: format!("{id}.png"),
        media_type: MediaType::Image,
        tags,
        attributes,
        filesize: 0,
        dimensions: None,
        duration_ms: None,
        thumbnail_path: Some(format!("/api/v1/media/{id}/thumbnail")),
        hash: None,
        indexed_at: Timestamp { seconds: 0, nanos: 0 },
    }
}

fn fixture_snapshot() -> CacheSnapshot {
    CacheSnapshot::new(vec![
        media(
            "sunset_A",
            vec![simple_tag("sunset"), simple_tag("coast"), kv_tag("rating", "5")],
        ),
        media("sunset_B", vec![simple_tag("sunset"), kv_tag("rating", "4")]),
        media(
            "macro_B",
            vec![simple_tag("macro"), kv_tag("rating", "4"), kv_tag("subject", "leaf")],
        ),
        media(
            "video_C",
            vec![simple_tag("video"), kv_tag("rating", "3"), kv_tag("type", "skate")],
        ),
    ])
}

fn ids(items: &[MediaFile]) -> Vec<String> {
    items.iter().map(|m| m.id.clone()).collect()
}

#[test]
fn filters_by_tags_and_attributes() {
    let snapshot = fixture_snapshot();
    let attributes = vec![("rating".to_string(), vec!["5".to_string()])];
    let query = SearchQuery::new(vec!["sunset".into(), "coast".into()], attributes, 1, 10);
    let result = SearchService::execute(&snapshot, &query);
    assert_eq!(result.total, 1);
    assert_eq!(result.items[0].id, "sunset_A");
}

#[test]
fn applies_or_semantics_within_attribute_values() {
    let snapshot = fixture_snapshot();
    let attributes = vec![("rating".to_string(), vec!["4".to_string(), "3".to_string()])];
    let query = SearchQuery::new(Vec::new(), attributes, 1, 10);
    let result = SearchService::execute(&snapshot, &query);
    assert_eq!(result.total, 3);
    let ids: HashSet<_> = result.items.iter().map(|m| m.id.as_str()).collect();
    assert!(ids.contains("macro_B"));
    assert!(ids.contains("video_C"));
    assert!(ids.contains("sunset_B"));
}

#[test]
fn paginates_matches() {
    let snapshot = fixture_snapshot();
    let query = SearchQuery::new(vec!["sunset".into()], Vec::new(), 2, 1);
    let result = SearchService::execute(&snapshot, &query);
    assert_eq!(result.total, 2);
    assert_eq!(result.items.len(), 1);
    assert_eq!(result.items[0].id, "sunset_B");
}

#[test]
fn second_page_of_one_holds_the_second_match_in_catalog_order() {
    let snapshot = fixture_snapshot();
    let first = SearchService::execute(
        &snapshot,
        &SearchQuery::new(vec!["sunset".into()], Vec::new(), 1, 1),
    );
    let second = SearchService::execute(
        &snapshot,
        &SearchQuery::new(vec!["sunset".into()], Vec::new(), 2, 1),
    );
    assert_eq!(ids(&first.items), vec!["sunset_A"]);
    assert_eq!(ids(&second.items), vec!["sunset_B"]);
    assert_eq!(second.page, 2);
    assert_eq!(second.page_size, 1);
}

#[test]
fn attribute_filter_matches_regardless_of_tag_filters_absent() {
    let snapshot = fixture_snapshot();
    let attributes = vec![("Rating".to_string(), vec![" 4 ".to_string(), "3".to_string()])];
    let result =
        SearchService::execute(&snapshot, &SearchQuery::new(Vec::new(), attributes, 1, 60));
    assert_eq!(result.total, 3);
    assert_eq!(ids(&result.items), vec!["sunset_B", "macro_B", "video_C"]);
}

#[test]
fn tag_filter_matches_key_value_tag_names() {
    let snapshot = CacheSnapshot::new(vec![
        media("camera_A", vec![kv_tag("camera", "alpha")]),
        media("other_B", vec![simple_tag("other")]),
    ]);
    let result = SearchService::execute(
        &snapshot,
        &SearchQuery::new(vec!["camera".into()], Vec::new(), 1, 10),
    );
    assert_eq!(result.total, 1);
    assert_eq!(result.items[0].id, "camera_A");
}

#[test]
fn tag_filter_matches_full_key_value_form() {
    let snapshot = fixture_snapshot();
    let result = SearchService::execute(
        &snapshot,
        &SearchQuery::new(vec!["Rating=4".into()], Vec::new(), 1, 10),
    );
    assert_eq!(ids(&result.items), vec!["sunset_B", "macro_B"]);
}

#[test]
fn attribute_falls_back_to_key_value_tags() {
    let mut record = media("late", vec![kv_tag("rating", "2"), kv_tag("rating", "5")]);
    // the attribute map keeps the first value only; the second tag still counts
    assert_eq!(record.attributes, vec![("rating".to_string(), "2".to_string())]);
    record.thumbnail_path = None;
    let snapshot = CacheSnapshot::new(vec![record]);
    let attributes = vec![("rating".to_string(), vec!["5".to_string()])];
    let result =
        SearchService::execute(&snapshot, &SearchQuery::new(Vec::new(), attributes, 1, 10));
    assert_eq!(result.total, 1);
}

#[test]
fn attribute_map_values_are_lowercased_before_comparison() {
    let mut record = media("upper", vec![simple_tag("x")]);
    record.attributes = vec![("camera".to_string(), "ALPHA".to_string())];
    let snapshot = CacheSnapshot::new(vec![record]);
    let attributes = vec![("camera".to_string(), vec!["alpha".to_string()])];
    let result =
        SearchService::execute(&snapshot, &SearchQuery::new(Vec::new(), attributes, 1, 10));
    assert_eq!(result.total, 1);
}

#[test]
fn empty_query_matches_everything() {
    let snapshot = fixture_snapshot();
    let result = SearchService::execute(&snapshot, &SearchQuery::default());
    assert_eq!(result.total, 4);
    assert_eq!(result.items.len(), 4);
    assert_eq!(result.page, 1);
    assert_eq!(result.page_size, DEFAULT_PAGE_SIZE);
}

#[test]
fn page_past_the_end_is_empty_but_counts_all() {
    let snapshot = fixture_snapshot();
    let result =
        SearchService::execute(&snapshot, &SearchQuery::new(Vec::new(), Vec::new(), 3, 2));
    assert_eq!(result.total, 4);
    assert!(result.items.is_empty());
    let huge = SearchService::execute(
        &snapshot,
        &SearchQuery::new(Vec::new(), Vec::new(), usize::MAX, 200),
    );
    assert_eq!(huge.total, 4);
    assert!(huge.items.is_empty());
}

#[test]
fn pages_have_the_expected_lengths_and_join_to_all_matches() {
    let snapshot = fixture_snapshot();
    for size in 1..=5usize {
        let total = 4usize;
        let pages = (total + size - 1) / size;
        let mut joined = Vec::new();
        for page in 1..=pages + 1 {
            let result = SearchService::execute(
                &snapshot,
                &SearchQuery::new(Vec::new(), Vec::new(), page, size),
            );
            let expected_len = size.min(total.saturating_sub((page - 1) * size));
            assert_eq!(result.items.len(), expected_len);
            if page <= pages {
                joined.extend(ids(&result.items));
            }
        }
        assert_eq!(joined, vec!["sunset_A", "sunset_B", "macro_B", "video_C"]);
    }
}

#[test]
fn query_normalizes_tags_and_bounds() {
    let query = SearchQuery::new(
        vec![" Sunset ".into(), "sunset".into(), "  ".into(), "COAST".into()],
        vec![
            ("  ".to_string(), vec!["x".to_string()]),
            ("Rating".to_string(), vec!["".to_string()]),
            ("rating".to_string(), vec!["5".to_string(), "5".to_string()]),
            ("RATING".to_string(), vec!["4".to_string()]),
        ],
        0,
        0,
    );
    assert_eq!(query.required_tags(), &["sunset".to_string(), "coast".to_string()]);
    assert_eq!(
        query.attribute_filters(),
        &[("rating".to_string(), vec!["5".to_string()])]
    );
    assert_eq!(query.page(), 1);
    assert_eq!(query.page_size(), DEFAULT_PAGE_SIZE);
    let big = SearchQuery::new(Vec::new(), Vec::new(), 7, 1000);
    assert_eq!(big.page(), 7);
    assert_eq!(big.page_size(), MAX_PAGE_SIZE);
}

#[test]
fn normalizing_twice_changes_nothing() {
    for page in [0usize, 1, 2, 99, usize::MAX] {
        assert_eq!(normalize_page(normalize_page(page)), normalize_page(page));
    }
    for size in [0usize, 1, 60, 200, 201, usize::MAX] {
        assert_eq!(normalize_page_size(normalize_page_size(size)), normalize_page_size(size));
    }
    assert_eq!(normalize_page(0), 1);
    assert_eq!(normalize_page_size(0), 60);
    assert_eq!(normalize_page_size(500), 200);
    assert_eq!(normalize_page_size(25), 25);
}
