use notecrumbs::abbrev::{abbrev_str, abbreviate, floor_char_boundary, is_utf8_char_boundary};
use notecrumbs::error::Error;
use notecrumbs::escape::decode_hex32;
use notecrumbs::format::{
    collapse_whitespace, format_relative_time, normalize_for_comparison, replace_char, word_count,
};
use notecrumbs::metadata::{extract_article_metadata, extract_highlight_metadata};
use notecrumbs::note::TagItem;
use notecrumbs::pages::note_json_body;
use notecrumbs::profile::{author_display_html, pfp_url_attr, ProfileInfo};
use notecrumbs::render::coordinate_tag;

fn named(display_name: &str, picture: &str) -> Option<ProfileInfo> {
    Some(ProfileInfo {
        name: None,
        display_name: Some(display_name.to_string()),
        about: None,
        picture: Some(picture.to_string()),
        nip05: None,
        website: None,
        lud16: None,
    })
}

fn tag(items: &[&str]) -> Vec<TagItem> {
    items.iter().map(|s| TagItem::Text(s.to_string())).collect()
}

#[test]
fn abbreviations_cut_at_character_boundaries() {
    assert_eq!(abbreviate("hello world", 5), "hello");
    assert_eq!(abbreviate("short", 50), "short");
    // 'é' takes two bytes: byte 2 is inside it
    assert_eq!(abbreviate("aé", 2), "a");
    assert_eq!(floor_char_boundary("aé", 2), 1);
    assert_eq!(floor_char_boundary("abc", 10), 3);
    assert!(is_utf8_char_boundary(b'a'));
    assert!(!is_utf8_char_boundary(0x80));
    assert_eq!(abbrev_str("npub1abcdefghijklmnop"), "npub1abcde...");
    assert_eq!(abbrev_str("tiny"), "tiny");
}

#[test]
fn html_escaping() {
    let profile = named("<a href=\"x\">&</a>", "say \"hi\" & <go>");
    assert_eq!(author_display_html(&profile), "&lt;a href=\"x\"&gt;&amp;&lt;/a&gt;");
    assert_eq!(pfp_url_attr(&profile, "https://x.y"), "say &quot;hi&quot; &amp; &lt;go&gt;");
    assert_eq!(author_display_html(&named("plain", "p")), "plain");
}

#[test]
fn json_strings() {
    assert_eq!(
        note_json_body("{}", &None, &None),
        "{\"note\":{},\"parsed_content\":[]}\n"
    );
    let blocks = Some(vec![
        notecrumbs::blocks::Block::Text("a\"b\\c\n".to_string()),
        notecrumbs::blocks::Block::Text("\u{1}".to_string()),
    ]);
    assert_eq!(
        note_json_body("{}", &blocks, &None),
        "{\"note\":{},\"parsed_content\":[{\"text\":\"a\\\"b\\\\c\\n\"},{\"text\":\"\\u0001\"}]}\n"
    );
}

#[test]
fn hex_round_trip() {
    assert_eq!(coordinate_tag(&[0xab; 32], 30023, "x"), format!("30023:{}:x", "ab".repeat(32)));
    assert_eq!(decode_hex32(&"11".repeat(32)), Some([0x11u8; 32]));
    let mut mixed = [0u8; 32];
    for (i, b) in mixed.iter_mut().enumerate() {
        *b = if i % 2 == 0 { 0xab } else { 0xcd };
    }
    assert_eq!(decode_hex32(&"AbCd".repeat(16)), Some(mixed));
    assert_eq!(decode_hex32(&"11".repeat(31)), None);
    assert_eq!(decode_hex32(&"z".repeat(64)), None);
    assert_eq!(decode_hex32(&"1".repeat(63)), None);
}

#[test]
fn relative_times() {
    let now = 10_000_000;
    assert_eq!(format_relative_time(now + 5, now), "now");
    assert_eq!(format_relative_time(now - 30, now), "now");
    assert_eq!(format_relative_time(now - 120, now), "2m");
    assert_eq!(format_relative_time(now - 6 * 3600, now), "6h");
    assert_eq!(format_relative_time(now - 2 * 86400, now), "2d");
    assert_eq!(format_relative_time(now - 3 * 604800, now), "3w");
}

#[test]
fn whitespace_and_words() {
    assert_eq!(collapse_whitespace("  a \n\t b  c "), "a b c");
    assert_eq!(collapse_whitespace(""), "");
    assert_eq!(word_count(" one two\nthree  "), 3);
    assert_eq!(word_count(""), 0);
    assert_eq!(replace_char("a\nb\n", '\n', "<br/>"), "a<br/>b<br/>");
}

#[test]
fn passages_compare_without_case_and_trailing_punctuation() {
    assert_eq!(normalize_for_comparison("  Hello World!!  "), "hello world");
    assert_eq!(normalize_for_comparison("Done ."), "done");
    assert_eq!(normalize_for_comparison("Hello world"), normalize_for_comparison("hello world."));
}

#[test]
fn article_metadata_from_tags() {
    let tags = vec![
        tag(&["title", "My Title"]),
        tag(&["image", "https://x/img.png"]),
        tag(&["summary", "sum"]),
        tag(&["published_at", "1700000000"]),
        tag(&["t", "rust", "Rust", "", "nostr"]),
        tag(&["published_at", "not a number"]),
    ];
    let meta = extract_article_metadata(&tags);
    assert_eq!(meta.title.as_deref(), Some("My Title"));
    assert_eq!(meta.image.as_deref(), Some("https://x/img.png"));
    assert_eq!(meta.summary.as_deref(), Some("sum"));
    assert_eq!(meta.published_at, Some(1700000000));
    assert_eq!(meta.topics, vec!["rust".to_string(), "nostr".to_string()]);
}

#[test]
fn article_topics_stop_at_ten() {
    let mut t = vec!["t"];
    let names: Vec<String> = (0..15).map(|i| format!("topic{}", i)).collect();
    for n in &names {
        t.push(n);
    }
    let meta = extract_article_metadata(&vec![tag(&t)]);
    assert_eq!(meta.topics.len(), 10);
}

#[test]
fn highlight_metadata_from_tags() {
    let tags = vec![
        tag(&["context", "  the context  "]),
        tag(&["comment", "   "]),
        tag(&["r", "  https://example.com/post  "]),
        tag(&["a", "30023:abcd:slug"]),
        vec![TagItem::Text("e".into()), TagItem::Id([9u8; 32])],
        tag(&["r", "ftp://nope"]),
    ];
    let meta = extract_highlight_metadata(&tags);
    assert_eq!(meta.context.as_deref(), Some("  the context  "));
    assert_eq!(meta.comment, None);
    assert_eq!(meta.source_url.as_deref(), Some("https://example.com/post"));
    assert_eq!(meta.source_article_addr.as_deref(), Some("30023:abcd:slug"));
    assert_eq!(meta.source_event_id, Some([9u8; 32]));
}

#[test]
fn error_messages() {
    assert_eq!(Error::NotFound.message(), "Not found");
    assert_eq!(Error::Generic("x".to_string()).message(), "Generic error: x");
    assert_eq!(Error::InvalidNip19.message(), "Invalid nip19 object");
}

#[test]
fn abbreviating_twice_keeps_the_smaller_budget() {
    let text = "héllo wörld";
    for a in 0..14 {
        for b in 0..14 {
            assert_eq!(abbreviate(abbreviate(text, a), b), abbreviate(text, a.min(b)));
        }
        assert!(abbreviate(text, a + 1).starts_with(abbreviate(text, a)));
    }
}

#[test]
fn collapsed_text_is_the_words_joined_by_single_spaces() {
    let input = "  one\t two\n\n three\u{3000}four  ";
    let collapsed = collapse_whitespace(input);
    assert_eq!(collapsed, "one two three four");
    assert_eq!(word_count(&collapsed), word_count(input));
    assert_eq!(collapse_whitespace(" \n\t "), "");
}
