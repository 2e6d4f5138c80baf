use notecrumbs::sitemap::{
    base_url_or_default, days_ago, format_lastmod, generate_robots_txt, generate_sitemap_xml,
    is_leap_year, xml_escape,
};
use notecrumbs::note::{NoteData, TagItem};

#[test]
fn test_xml_escape() {
    assert_eq!(xml_escape("hello"), "hello");
    assert_eq!(xml_escape("a&b"), "a&amp;b");
    assert_eq!(xml_escape("<tag>"), "&lt;tag&gt;");
    assert_eq!(xml_escape("\"quoted\""), "&quot;quoted&quot;");
}

#[test]
fn test_format_lastmod() {
    // 2024-01-01 00:00:00 UTC = 1704067200
    assert_eq!(format_lastmod(1704067200), "2024-01-01");
    // 2023-06-15 12:00:00 UTC = 1686830400
    assert_eq!(format_lastmod(1686830400), "2023-06-15");
}

#[test]
fn test_is_leap_year() {
    assert!(is_leap_year(2000));
    assert!(is_leap_year(2024));
    assert!(!is_leap_year(1900));
    assert!(!is_leap_year(2023));
}

#[test]
fn test_robots_txt_format() {
    let base = base_url_or_default(None);
    let robots = generate_robots_txt(&base);
    assert!(robots.contains("User-agent: *"));
    assert!(robots.contains("Allow: /"));
    assert!(robots.contains("Disallow: /metrics"));
    assert!(robots.contains("Sitemap:"));
}

#[test]
fn robots_txt_points_at_the_sitemap_of_its_base() {
    let robots = generate_robots_txt("https://example.org");
    assert_eq!(
        robots,
        "User-agent: *\nAllow: /\nDisallow: /metrics\nDisallow: /*.json\n\nSitemap: https://example.org/sitemap.xml\n"
    );
    assert_eq!(base_url_or_default(None), "https://damus.io");
    assert_eq!(base_url_or_default(Some("https://x.y".to_string())), "https://x.y");
}

#[test]
fn xml_escape_handles_apostrophes() {
    assert_eq!(xml_escape("it's"), "it&apos;s");
}

#[test]
fn lastmod_of_epoch_and_leap_day() {
    assert_eq!(format_lastmod(0), "1970-01-01");
    // 2024-02-29 00:00:00 UTC
    assert_eq!(format_lastmod(1709164800), "2024-02-29");
    // 2000-12-31 23:59:59 UTC
    assert_eq!(format_lastmod(978307199), "2000-12-31");
}

#[test]
fn days_ago_saturates_at_zero() {
    assert_eq!(days_ago(1_000_000, 1), 1_000_000 - 86_400);
    assert_eq!(days_ago(10, 90), 0);
}

fn note(id: u8, kind: u32, created_at: u64, tags: Vec<Vec<TagItem>>) -> NoteData {
    NoteData {
        key: id as u64,
        id: [id; 32],
        pubkey: [7u8; 32],
        created_at,
        kind,
        content: String::new(),
        tags,
    }
}

#[test]
fn sitemap_lists_home_notes_articles_and_profiles() {
    let notes = vec![note(1, 1, 1704067200, vec![])];
    let articles = vec![
        note(2, 30023, 1704067200, vec![vec![TagItem::Text("d".into()), TagItem::Text("slug".into())]]),
        // no identifier: left out
        note(3, 30023, 1704067200, vec![]),
    ];
    let profiles = vec![note(4, 0, 1686830400, vec![])];
    let xml = generate_sitemap_xml("https://example.org", 1704067200, &notes, &articles, &profiles);
    assert!(xml.starts_with("<?xml version=\"1.0\" encoding=\"UTF-8\"?>\n<urlset"));
    assert!(xml.ends_with("</urlset>\n"));
    assert_eq!(xml.matches("<url>").count(), 4);
    assert!(xml.contains("<loc>https://example.org</loc>"));
    assert!(xml.contains("<priority>1.0</priority>"));
    assert!(xml.contains("<changefreq>daily</changefreq>"));
    assert!(xml.contains("<loc>https://example.org/note1"));
    assert!(xml.contains("<loc>https://example.org/naddr1"));
    assert!(xml.contains("<loc>https://example.org/npub1"));
    assert!(xml.contains("<lastmod>2023-06-15</lastmod>"));
    assert!(xml.contains("<priority>0.8</priority>"));
    assert!(xml.contains("<priority>0.9</priority>"));
    assert!(xml.contains("<priority>0.7</priority>"));
}

#[test]
fn escaped_xml_holds_no_markup_and_reads_back() {
    let original = "Tom & Jerry's <\"show\">";
    let escaped = xml_escape(original);
    assert!(!escaped.contains(['<', '>', '"', '\'']));
    let back = escaped
        .replace("&lt;", "<")
        .replace("&gt;", ">")
        .replace("&quot;", "\"")
        .replace("&apos;", "'")
        .replace("&amp;", "&");
    assert_eq!(back, original);
}

#[test]
fn later_timestamps_never_get_earlier_dates() {
    let days = [0u64, 58, 59, 365, 10957, 19782, 2932896];
    let mut previous = String::new();
    for d in days {
        let t = d * 86400;
        let text = format_lastmod(t);
        assert_eq!(format_lastmod(t + 86399), text);
        assert!(text > previous);
        previous = text;
    }
    assert_eq!(format_lastmod(2932896 * 86400), "9999-12-31");
}

#[test]
fn lastmod_texts_are_equal_only_on_the_same_day() {
    assert_eq!(format_lastmod(0), format_lastmod(86399));
    assert_ne!(format_lastmod(86399), format_lastmod(86400));
    assert!(format_lastmod(253402300799) > format_lastmod(253402300799 - 86400));
    assert_eq!(format_lastmod(253402300799), "9999-12-31");
}
