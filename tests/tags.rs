use galarie::tags::{parse_filename_tokens, TagKind};

fn normalized(filename: &str) -> Vec<String> {
    parse_filename_tokens(filename)
        .tags
        .iter()
        .map(|tag| tag.normalized.clone())
        .collect()
}

#[test]
fn parses_sample_filename_into_tags() {
    let result = parse_filename_tokens("sunset_coast+location-okinawa_rating-5");
    assert_eq!(result.invalid_tokens, Vec::<String>::new());
    assert_eq!(
        result
            .tags
            .iter()
            .map(|tag| tag.normalized.clone())
            .collect::<Vec<_>>(),
        vec![
            "sunset".to_string(),
            "coast".to_string(),
            "location=okinawa".to_string(),
            "rating=5".to_string()
        ]
    );
}

#[test]
fn captures_invalid_tokens() {
    let result = parse_filename_tokens("invalid- rating-  _good+ :missing");
    assert_eq!(result.tags.len(), 1);
    assert_eq!(result.tags[0].normalized, "good");
    assert_eq!(
        result.invalid_tokens,
        vec!["invalid-", "rating-", ":missing"]
    );
}

#[test]
fn sample_filename_with_extension_parses_to_four_tags() {
    let result = parse_filename_tokens("sunset_coast+location-okinawa_rating-5.png");
    assert!(result.invalid_tokens.is_empty());
    assert_eq!(
        normalized("sunset_coast+location-okinawa_rating-5.png"),
        vec!["sunset", "coast", "location=okinawa", "rating=5"]
    );
    let kv = &result.tags[2];
    assert_eq!(kv.kind, TagKind::KeyValue);
    assert_eq!(kv.name, "location");
    assert_eq!(kv.value.as_deref(), Some("okinawa"));
    assert_eq!(kv.raw_token, "location-okinawa");
    let simple = &result.tags[0];
    assert_eq!(simple.kind, TagKind::Simple);
    assert_eq!(simple.value, None);
}

#[test]
fn parsing_twice_gives_the_same_result() {
    let name = "Beach_Trip+Camera:Alpha x-_ rating-";
    let a = parse_filename_tokens(name);
    let b = parse_filename_tokens(name);
    assert_eq!(a.invalid_tokens, b.invalid_tokens);
    assert_eq!(a.tags.len(), b.tags.len());
    for (x, y) in a.tags.iter().zip(b.tags.iter()) {
        assert_eq!(x.raw_token, y.raw_token);
        assert_eq!(x.kind, y.kind);
        assert_eq!(x.name, y.name);
        assert_eq!(x.value, y.value);
        assert_eq!(x.normalized, y.normalized);
    }
    for tag in &a.tags {
        let expected = match (&tag.kind, &tag.value) {
            (TagKind::Simple, None) => tag.name.clone(),
            (TagKind::KeyValue, Some(v)) => format!("{}={}", tag.name, v),
            _ => panic!("kind and value disagree"),
        };
        assert_eq!(tag.normalized, expected);
    }
}

#[test]
fn tags_are_lowercased_but_raw_tokens_kept() {
    let result = parse_filename_tokens("Sunset_Camera:ALPHA");
    assert_eq!(normalized("Sunset_Camera:ALPHA"), vec!["sunset", "camera=alpha"]);
    assert_eq!(result.tags[0].raw_token, "Sunset");
    assert_eq!(result.tags[1].raw_token, "Camera:ALPHA");
}

#[test]
fn colon_is_tried_before_dash() {
    assert_eq!(normalized("a:b-c"), vec!["a=b-c"]);
    assert_eq!(normalized(":a-b"), vec![":a=b"]);
}

#[test]
fn empty_and_extension_only_names_have_no_tags() {
    let empty = parse_filename_tokens("");
    assert!(empty.tags.is_empty());
    assert!(empty.invalid_tokens.is_empty());
    let hidden = parse_filename_tokens(".png");
    assert!(hidden.tags.is_empty());
    assert!(hidden.invalid_tokens.is_empty());
}

#[test]
fn stem_ends_at_first_dot() {
    assert_eq!(normalized("macro_leaf.tar.gz"), vec!["macro", "leaf"]);
}
