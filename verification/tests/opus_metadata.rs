use ord::metadata::{from_tags, structured, values_to_value, TagValue};
use ord::opus::{
    find_tag_in, is_opus_content_type, is_picture_tag, normalize_opus_tag_key, raw_tags_from,
    sanitize_tag, title, artist, SANITIZED_TAG_MAX_LEN,
};

fn pairs(items: &[(&str, &str)]) -> Vec<(String, String)> {
    items.iter().map(|(k, v)| (k.to_string(), v.to_string())).collect()
}

#[test]
fn title_returns_none_for_non_opus() {
    assert!(title(b"random non-opus bytes").is_none());
    assert!(title(&[0u8; 32]).is_none());
}

#[test]
fn title_handles_case_insensitive_keys() {
    let value = find_tag_in(vec![("TiTlE".into(), "x".into())], "title");
    assert_eq!(value.as_deref(), Some("x"));
}

#[test]
fn title_strips_whitespace_only() {
    let value = find_tag_in(vec![("title".into(), "   ".into())], "title");
    assert!(value.is_none());
}

#[test]
fn sanitize_tag_strips_control_chars_and_truncates() {
    assert_eq!(sanitize_tag("hi\x00\x07\x1bthere".into()), "hithere");
    assert_eq!(sanitize_tag("  hello  ".into()), "hello");

    let long: String = "a".repeat(SANITIZED_TAG_MAX_LEN + 50);
    assert_eq!(sanitize_tag(long).chars().count(), SANITIZED_TAG_MAX_LEN);
}

#[test]
fn is_opus_content_type_matches_variants() {
    assert!(is_opus_content_type("audio/opus"));
    assert!(is_opus_content_type("audio/opus; charset=utf-8"));
    assert!(is_opus_content_type("audio/ogg;codecs=opus"));
    assert!(is_opus_content_type("AUDIO/OGG;CODECS=OPUS"));
    assert!(!is_opus_content_type("audio/ogg"));
    assert!(!is_opus_content_type("audio/flac"));
}

#[test]
fn artist_and_metadata_absent_for_non_opus() {
    assert!(artist(b"random non-opus bytes").is_none());
    assert!(structured(&[0u8; 64]).is_none());
}

#[test]
fn sanitize_tag_trims_unicode_whitespace_and_keeps_other_text() {
    assert_eq!(sanitize_tag("\u{3000}\u{a0}Caf\u{e9}\u{2028}".into()), "Caf\u{e9}");
    assert_eq!(sanitize_tag("a\x7fb\tc".into()), "abc");
    assert_eq!(sanitize_tag("".into()), "");
}

#[test]
fn sanitize_tag_cut_counts_characters_not_bytes() {
    let long: String = "\u{e9}".repeat(SANITIZED_TAG_MAX_LEN + 1);
    let cut = sanitize_tag(long);
    assert_eq!(cut.chars().count(), SANITIZED_TAG_MAX_LEN);
    assert!(cut.chars().all(|c| c == '\u{e9}'));
}

#[test]
fn find_tag_in_takes_first_non_empty_match() {
    let tags = pairs(&[("artist", "a"), ("TITLE", " \x01 "), ("title", " Second "), ("Title", "Third")]);
    assert_eq!(find_tag_in(tags, "Title").as_deref(), Some("Second"));
    assert_eq!(find_tag_in(pairs(&[("artist", "a")]), "title"), None);
}

#[test]
fn is_picture_tag_matches_any_case() {
    assert!(is_picture_tag("METADATA_BLOCK_PICTURE"));
    assert!(is_picture_tag("metadata_block_picture"));
    assert!(is_picture_tag("CoverPicture"));
    assert!(!is_picture_tag("title"));
    assert!(!is_picture_tag("pict"));
}

#[test]
fn raw_tags_from_trims_keys_and_drops_pictures() {
    let probed = pairs(&[
        ("  TITLE ", "Song"),
        ("METADATA_BLOCK_PICTURE", "AAAA"),
        ("   ", "nothing"),
        ("cover picture", "BBBB"),
        ("ARTIST", " Someone "),
    ]);
    let tags = raw_tags_from(probed);
    assert_eq!(tags, pairs(&[("TITLE", "Song"), ("ARTIST", " Someone ")]));
    assert!(!tags.iter().any(|(key, _)| is_picture_tag(key)));
}

#[test]
fn normalize_opus_tag_key_maps_spellings_to_fields() {
    assert_eq!(normalize_opus_tag_key("TITLE"), "title");
    assert_eq!(normalize_opus_tag_key("AlbumArtist"), "album artist");
    assert_eq!(normalize_opus_tag_key("ALBUM_ARTIST"), "album artist");
    assert_eq!(normalize_opus_tag_key("TrackNumber"), "track number");
    assert_eq!(normalize_opus_tag_key("track"), "track number");
    assert_eq!(normalize_opus_tag_key("Year"), "date");
    assert_eq!(normalize_opus_tag_key("comment"), "description");
    assert_eq!(normalize_opus_tag_key("LYRICIST"), "songwriter");
    assert_eq!(normalize_opus_tag_key("assistant-engineer"), "assistant engineer");
}

#[test]
fn normalize_opus_tag_key_splits_other_keys_into_words() {
    assert_eq!(normalize_opus_tag_key("  myCustom.Key--x  "), "my custom key x");
    assert_eq!(normalize_opus_tag_key("ENCODER"), "encoder");
    assert_eq!(normalize_opus_tag_key("__"), "");
    assert_eq!(normalize_opus_tag_key("a\u{2003}b"), "a b");
    assert_eq!(normalize_opus_tag_key(""), "");
}

fn text(value: &TagValue) -> Option<&str> {
    match value {
        TagValue::Text(t) => Some(t.as_str()),
        TagValue::Array(_) => None,
    }
}

fn array(value: &TagValue) -> Option<Vec<&str>> {
    match value {
        TagValue::Array(a) => Some(a.iter().map(|s| s.as_str()).collect()),
        TagValue::Text(_) => None,
    }
}

#[test]
fn from_tags_orders_common_fields_first_then_keys() {
    let tags = pairs(&[
        ("zeta", "z"),
        ("ARTIST", "first"),
        ("Encoder", "lib"),
        ("METADATA_BLOCK_PICTURE", "data"),
        ("TITLE", "Song"),
        ("artist", "second"),
        ("__", "dropped"),
        ("alpha", "a"),
    ]);
    let map = from_tags(tags).unwrap();
    let keys: Vec<&str> = map.iter().map(|(k, _)| k.as_str()).collect();
    assert_eq!(keys, vec!["title", "artist", "alpha", "encoder", "zeta"]);
    assert_eq!(text(&map[0].1), Some("Song"));
    assert_eq!(array(&map[1].1), Some(vec!["first", "second"]));
    assert_eq!(text(&map[2].1), Some("a"));
    assert_eq!(text(&map[3].1), Some("lib"));
    assert_eq!(text(&map[4].1), Some("z"));
}

#[test]
fn from_tags_is_none_without_usable_tags() {
    assert!(from_tags(Vec::new()).is_none());
    assert!(from_tags(pairs(&[("cover picture", "x"), ("--", "y")])).is_none());
}

#[test]
fn values_to_value_single_and_many() {
    assert_eq!(text(&values_to_value(vec!["one".to_string()])), Some("one"));
    assert_eq!(array(&values_to_value(vec!["a".to_string(), "b".to_string()])), Some(vec!["a", "b"]));
    assert_eq!(array(&values_to_value(Vec::new())), Some(Vec::new()));
}

#[test]
fn normalize_opus_tag_key_is_idempotent() {
    for key in ["AlbumArtist", "  myCustom.Key--x  ", "Year", "TRACK_NUMBER", "x\u{a0}\u{a0}Y", ""] {
        let once = normalize_opus_tag_key(key);
        assert_eq!(normalize_opus_tag_key(&once), once);
    }
}

#[test]
fn sanitize_tag_twice_changes_nothing() {
    for raw in ["  hi\x07 there \t", "plain", "", "\x00\x01", " \u{a0}x\u{85} "] {
        let once = sanitize_tag(raw.to_string());
        assert_eq!(sanitize_tag(once.clone()), once);
    }
    let cut = format!("{} {}", "a".repeat(SANITIZED_TAG_MAX_LEN - 1), "b");
    let once = sanitize_tag(cut);
    assert_eq!(once.chars().count(), SANITIZED_TAG_MAX_LEN);
    assert_eq!(sanitize_tag(once.clone()).chars().count(), SANITIZED_TAG_MAX_LEN - 1);
}
