use axum::http::StatusCode;
use galarie::api::{
    derive_content_type, find_media, parse_attributes, parse_disposition, parse_range,
    parse_tags, search_media, split_comma_values, ApiError, ErrorCode, RawSearchParams,
    StreamRange,
};
use galarie::cache::CacheSnapshot;
use galarie::indexer::{attributes_from_tags, MediaFile, MediaType, Timestamp};
use galarie::tags::{Tag, TagKind};

fn simple_tag(name: &str) -> Tag {
    Tag {
        raw_token: name.into(),
        kind: TagKind::Simple,
        name: name.to_lowercase(),
        value: None,
        normalized: name.to_lowercase(),
    }
}

fn kv_tag(key: &str, value: &str) -> Tag {
    Tag {
        raw_token: format!("{key}-{value}"),
        kind: TagKind::KeyValue,
        name: key.to_lowercase(),
        value: Some(value.to_lowercase()),
        normalized: format!("{}={}", key.to_lowercase(), value.to_lowercase()),
    }
}

fn sample_media(id: &str, tags: Vec<Tag>) -> MediaFile {
    let attributes = attributes_from_tags(&tags);
    MediaFile {
        id: id.to_string(),
        relative_path: format!("{id}.png"),
        media_type: MediaType::Image,
        tags,
        attributes,
        filesize: 0,
        dimensions: None,
        duration_ms: None,
        thumbnail_path: Some(format!("/media/{id}/thumbnail")),
        hash: None,
        indexed_at: Timestamp { seconds: 0, nanos: 0 },
    }
}

fn two_records() -> CacheSnapshot {
    CacheSnapshot::new(vec![
        sample_media("sunset_A", vec![simple_tag("sunset"), kv_tag("rating", "5")]),
        sample_media("macro_B", vec![simple_tag("macro"), kv_tag("rating", "4")]),
    ])
}

#[test]
fn helper_builders_emit_expected_statuses() {
    assert_eq!(
        ApiError::bad_request("oops").status(),
        StatusCode::BAD_REQUEST.as_u16()
    );
    assert_eq!(
        ApiError::unauthorized("nope").status(),
        StatusCode::UNAUTHORIZED.as_u16()
    );
    assert_eq!(ApiError::forbidden("halt").status(), StatusCode::FORBIDDEN.as_u16());
    assert_eq!(
        ApiError::not_found("missing").status(),
        StatusCode::NOT_FOUND.as_u16()
    );
    assert_eq!(ApiError::conflict("race").status(), StatusCode::CONFLICT.as_u16());
    assert_eq!(
        ApiError::too_many_requests("slow down").status(),
        StatusCode::TOO_MANY_REQUESTS.as_u16()
    );
    assert_eq!(
        ApiError::service_unavailable("retry later").status(),
        StatusCode::SERVICE_UNAVAILABLE.as_u16()
    );
    assert_eq!(
        ApiError::internal("fault").code(),
        ErrorCode::InternalServerError
    );
}

#[test]
fn not_found_error_keeps_its_message() {
    let err = ApiError::not_found("media not found");
    assert_eq!(err.status(), 404);
    let body = err.to_response();
    assert_eq!(body.error.code, ErrorCode::ResourceNotFound);
    assert_eq!(body.error.message, "media not found");
    assert!(!err.is_critical());
}

#[test]
fn internal_with_source_masks_message() {
    let err = ApiError::internal_with_source("boom");
    assert_eq!(err.status(), 500);
    assert_eq!(err.code(), ErrorCode::InternalServerError);
    assert_eq!(err.message(), "internal server error");
    assert_eq!(err.source(), Some("boom"));
    assert!(err.is_critical());
    assert_eq!(ApiError::method_not_allowed("no").status(), 405);
    assert_eq!(ErrorCode::Conflict.default_status(), 409);
}

#[test]
fn parses_suffix_range() {
    let range = parse_range(Some("bytes=-500"), 1_000).expect("range");
    match range {
        StreamRange::Partial { start, end } => {
            assert_eq!(start, 500);
            assert_eq!(end, 999);
        }
        _ => panic!("expected partial range"),
    }
}

#[test]
fn parses_open_ended_range() {
    let range = parse_range(Some("bytes=250-"), 1_000).expect("range");
    match range {
        StreamRange::Partial { start, end } => {
            assert_eq!(start, 250);
            assert_eq!(end, 999);
        }
        _ => panic!("expected partial range"),
    }
}

#[test]
fn rejects_out_of_bounds_start() {
    let err = parse_range(Some("bytes=2000-"), 1_000).unwrap_err();
    assert_eq!(err.status(), StatusCode::RANGE_NOT_SATISFIABLE.as_u16());
}

#[test]
fn range_edge_cases() {
    assert_eq!(parse_range(None, 10).unwrap(), StreamRange::Full);
    assert_eq!(
        parse_range(Some("bytes=0-11"), 12).unwrap(),
        StreamRange::Partial { start: 0, end: 11 }
    );
    assert_eq!(
        parse_range(Some("bytes=5-50"), 12).unwrap(),
        StreamRange::Partial { start: 5, end: 11 }
    );
    assert_eq!(
        parse_range(Some("bytes=-50"), 12).unwrap(),
        StreamRange::Partial { start: 0, end: 11 }
    );
    assert_eq!(
        parse_range(Some("bytes=+3-4"), 12).unwrap(),
        StreamRange::Partial { start: 3, end: 4 }
    );
    assert_eq!(
        parse_range(Some("bytes=7"), 12).unwrap(),
        StreamRange::Partial { start: 7, end: 11 }
    );
}

#[test]
fn range_errors_name_their_cause() {
    let cases = [
        ("items=0-1", 400, "range must be expressed in bytes"),
        ("bytes=0-1,3-4", 400, "multiple ranges are not supported"),
        ("bytes=-x", 400, "invalid range suffix"),
        ("bytes=-0", 400, "invalid range suffix"),
        ("bytes=", 400, "range start is required"),
        ("bytes=a-5", 400, "invalid range start"),
        ("bytes=3-b", 400, "invalid range end"),
        ("bytes=5-3", 400, "range end must be >= start"),
        ("bytes=99999999999999999999-", 400, "invalid range start"),
        ("bytes=12-", 416, "range start exceeds file length"),
    ];
    for (header, status, message) in cases {
        let err = parse_range(Some(header), 12).unwrap_err();
        assert_eq!(err.status(), status, "{header}");
        assert_eq!(err.code(), ErrorCode::ValidationFailed);
        assert_eq!(err.message(), message, "{header}");
    }
    let empty = parse_range(Some("bytes=-5"), 0).unwrap_err();
    assert_eq!(empty.status(), 416);
}

#[test]
fn tags_parameter_parsing() {
    assert_eq!(parse_tags(None).unwrap(), Vec::<String>::new());
    assert_eq!(
        parse_tags(Some(" Sunset, ,COAST ")).unwrap(),
        vec!["sunset".to_string(), "coast".to_string()]
    );
    assert_eq!(
        parse_tags(Some(" , ")).unwrap_err(),
        "tags query parameter must contain at least one value"
    );
    assert_eq!(split_comma_values("a,,B"), vec!["a".to_string(), "b".to_string()]);
}

#[test]
fn attribute_parameters_are_collected() {
    let rest = vec![
        ("attributes[Rating]".to_string(), "5, 4".to_string()),
        ("attributes[empty]".to_string(), " , ".to_string()),
        ("other".to_string(), "x".to_string()),
        ("attributes[".to_string(), "y".to_string()),
    ];
    assert_eq!(
        parse_attributes(&rest),
        vec![("rating".to_string(), vec!["5".to_string(), "4".to_string()])]
    );
}

#[test]
fn allows_browsing_without_filters() {
    let params = RawSearchParams {
        page: Some(1),
        page_size: Some(2),
        ..Default::default()
    };
    let response = search_media(&params, &two_records()).unwrap();
    assert_eq!(response.total, 2);
    assert_eq!(response.items.len(), 2);
}

#[test]
fn returns_matching_media() {
    let params = RawSearchParams {
        tags: Some("sunset".to_string()),
        rest: vec![("attributes[rating]".to_string(), "5".to_string())],
        ..Default::default()
    };
    let response = search_media(&params, &two_records()).unwrap();
    assert_eq!(response.total, 1);
    assert_eq!(response.items[0].id, "sunset_A");
}

#[test]
fn matches_kv_tag_names_with_tags_query() {
    let snapshot = CacheSnapshot::new(vec![
        sample_media("camera_A", vec![kv_tag("camera", "alpha")]),
        sample_media("other_B", vec![simple_tag("other")]),
    ]);
    let params = RawSearchParams {
        tags: Some("camera".to_string()),
        ..Default::default()
    };
    let response = search_media(&params, &snapshot).unwrap();
    assert_eq!(response.total, 1);
    assert_eq!(response.items[0].id, "camera_A");
}

#[test]
fn empty_tags_parameter_is_a_validation_error() {
    let params = RawSearchParams {
        tags: Some(",".to_string()),
        ..Default::default()
    };
    let err = search_media(&params, &two_records()).unwrap_err();
    assert_eq!(err.status(), 400);
    assert_eq!(err.code(), ErrorCode::ValidationFailed);
}

#[test]
fn search_defaults_page_and_size() {
    let response = search_media(&RawSearchParams::default(), &two_records()).unwrap();
    assert_eq!(response.page, 1);
    assert_eq!(response.page_size, 60);
}

#[test]
fn disposition_is_checked() {
    assert_eq!(parse_disposition(None).unwrap(), "inline");
    assert_eq!(parse_disposition(Some("ATTACHMENT")).unwrap(), "attachment");
    let err = parse_disposition(Some("download")).unwrap_err();
    assert_eq!(err.status(), 400);
    assert_eq!(err.message(), "disposition must be inline or attachment");
}

#[test]
fn content_type_guesses_then_falls_back() {
    let record = sample_media("x", vec![]);
    assert_eq!(derive_content_type(&record, "/m/x.png"), "image/png");
    assert_eq!(derive_content_type(&record, "/m/x.PDF"), "application/pdf");
    assert_eq!(derive_content_type(&record, "/m/x.nothing-known"), "image/jpeg");
    let mut unknown = sample_media("y", vec![]);
    unknown.media_type = MediaType::Unknown;
    assert_eq!(derive_content_type(&unknown, "/m/y"), "application/octet-stream");
}

#[test]
fn media_lookup_by_id() {
    let snapshot = two_records();
    assert_eq!(find_media(&snapshot.media, "macro_B").unwrap().id, "macro_B");
    assert!(find_media(&snapshot.media, "missing").is_none());
}
