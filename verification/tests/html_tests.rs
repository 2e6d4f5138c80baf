use notecrumbs::article::{
    build_article_content_html, build_article_source_link, build_highlight_content_html,
    build_highlight_source_markup, build_note_source_link, build_url_source_link, ArticleSource,
};
use notecrumbs::blocks::{blocktype_name, Block, BlockType, Mention};
use notecrumbs::card::{body_segments, username_label, BodySegment};
use notecrumbs::embed::{build_embedded_quotes_html, EmbedItem, QuotedNote};
use notecrumbs::metadata::extract_highlight_metadata;
use notecrumbs::nip19::{to_bech32, Nip19Ref};
use notecrumbs::note::{NoteData, TagItem};
use notecrumbs::notecard::{
    build_note_content_html, build_replies_html, get_parent_note_info, note_quote_refs,
    render_note_content, AuthoredNote, NoteCardData, ReplyNote,
};
use notecrumbs::pages::{build_homepage, build_note_page, note_json_body, render_markdown, NotePageData};
use notecrumbs::profile::{
    author_display_html, author_handle_html, get_profile_display_name, pfp_url_attr, ProfileInfo,
};
use notecrumbs::profile_page::{build_profile_page, latest_relay_list, ProfilePageData};
use notecrumbs::quotes::{
    build_quote_link, collect_all_quote_refs, extract_quote_refs_from_content,
    extract_quote_refs_from_tags, find_article, parse_article_addr, QuoteRef,
};
use notecrumbs::stats::{build_note_stats_html, stats_sum_fits, MetaEntry};
use notecrumbs::unknowns::{StoreSnapshot, StoredRef, ThreadRef, UnknownFilter, UnknownId, UnknownIds};

fn tag(items: &[&str]) -> Vec<TagItem> {
    items.iter().map(|s| TagItem::Text(s.to_string())).collect()
}

fn profile(name: Option<&str>, display: Option<&str>, picture: Option<&str>) -> ProfileInfo {
    ProfileInfo {
        name: name.map(|s| s.to_string()),
        display_name: display.map(|s| s.to_string()),
        about: None,
        picture: picture.map(|s| s.to_string()),
        nip05: None,
        website: None,
        lud16: None,
    }
}

fn note(id: u8, kind: u32, content: &str, tags: Vec<Vec<TagItem>>) -> NoteData {
    NoteData { key: id as u64, id: [id; 32], pubkey: [id; 32], created_at: 1_000_000, kind, content: content.to_string(), tags }
}

fn note_bech(id: u8) -> String {
    to_bech32(&Nip19Ref::EventId([id; 32])).unwrap()
}

#[test]
fn profile_names() {
    let p = Some(profile(Some("alice"), Some("  "), None));
    assert_eq!(get_profile_display_name(&p).as_deref(), Some("alice"));
    assert_eq!(author_display_html(&None), "nostrich");
    assert_eq!(author_display_html(&Some(profile(None, Some("<b>"), None))), "&lt;b&gt;");
    assert_eq!(author_handle_html(&p), "<span class=\"damus-note-handle\">@alice</span>");
    assert_eq!(author_handle_html(&None), "");
    assert_eq!(pfp_url_attr(&None, "https://x"), "https://x/img/no-profile.svg");
    assert_eq!(pfp_url_attr(&Some(profile(None, None, Some(" https://p/a.png "))), "https://x"), "https://p/a.png");
}

#[test]
fn q_tags_give_quotes() {
    let hex = "ab".repeat(32);
    let nevent_id = note_bech(1);
    let tags = vec![
        tag(&["q", &hex, "wss://relay.example.com"]),
        tag(&["q", &nevent_id]),
        tag(&["q", "30023:abcd:slug"]),
        tag(&["q", "garbage"]),
        tag(&["p", &hex]),
    ];
    let refs = extract_quote_refs_from_tags(&tags);
    assert_eq!(refs.len(), 3);
    match &refs[0] {
        QuoteRef::Event { id, bech32, relays } => {
            assert_eq!(*id, [0xab; 32]);
            assert!(bech32.is_none());
            assert_eq!(relays.len(), 1);
            assert!(relays[0].contains("relay.example.com"));
        }
        _ => panic!("expected an event"),
    }
    match &refs[1] {
        QuoteRef::Event { id, bech32, relays } => {
            assert_eq!(*id, [1; 32]);
            assert_eq!(bech32.as_deref(), Some(nevent_id.as_str()));
            assert!(relays.is_empty());
        }
        _ => panic!("expected an event"),
    }
    assert!(matches!(&refs[2], QuoteRef::Article { addr, bech32: None, .. } if addr == "30023:abcd:slug"));
}

#[test]
fn inline_mentions_give_quotes_and_merge_without_duplicates() {
    let b1 = note_bech(1);
    let b2 = note_bech(2);
    let blocks = vec![
        Block::Text("see ".to_string()),
        Block::MentionBech32 { text: b1.clone(), mention: Mention::Note([1; 32]), profile: None },
        Block::MentionBech32 { text: b2.clone(), mention: Mention::Note([2; 32]), profile: None },
    ];
    let inline = extract_quote_refs_from_content(&blocks);
    assert_eq!(inline.len(), 2);
    let tags = vec![tag(&["q", &b1])];
    let all = collect_all_quote_refs(&tags, &Some(blocks));
    assert_eq!(all.len(), 2);
    assert!(matches!(&all[1], QuoteRef::Event { id, .. } if *id == [2; 32]));
    let none = collect_all_quote_refs(&tags, &None);
    assert_eq!(none.len(), 1);
}

#[test]
fn note_card_quotes_dedupe_by_event() {
    let b1 = note_bech(1);
    let hex = "01".repeat(32);
    let tags = vec![tag(&["q", &hex])];
    let blocks = Some(vec![Block::MentionBech32 { text: b1, mention: Mention::Note([1; 32]), profile: None }]);
    // the inline mention names the same event as the hex q tag
    assert_eq!(note_quote_refs(&tags, &blocks).len(), 1);
    assert_eq!(collect_all_quote_refs(&tags, &blocks).len(), 2);
}

#[test]
fn quote_links() {
    let with = QuoteRef::Event { id: [1; 32], bech32: Some("nevent1xyz".to_string()), relays: vec![] };
    assert_eq!(build_quote_link(&with), "/nevent1xyz");
    let without = QuoteRef::Event { id: [1; 32], bech32: None, relays: vec![] };
    assert_eq!(build_quote_link(&without), format!("/{}", note_bech(1)));
    let art = QuoteRef::Article { addr: format!("30023:{}:slug", "02".repeat(32)), bech32: None, relays: vec![] };
    assert!(build_quote_link(&art).starts_with("/naddr1"));
    let bad = QuoteRef::Article { addr: "30023:zz:slug".to_string(), bech32: None, relays: vec![] };
    assert_eq!(build_quote_link(&bad), "#");
}

#[test]
fn article_addresses() {
    let addr = format!("30023:{}:my:slug", "03".repeat(32));
    let (kind, pk, d) = parse_article_addr(&addr).unwrap();
    assert_eq!(kind, 30023);
    assert_eq!(pk, [3; 32]);
    assert_eq!(d, "my:slug");
    assert!(parse_article_addr("30023:nohex").is_none());
    let notes = vec![
        note(1, 30023, "", vec![tag(&["d", "other"])]),
        note(2, 30023, "", vec![tag(&["title", "T"]), tag(&["d", "my:slug"])]),
    ];
    assert_eq!(find_article(&notes, "my:slug"), Some((2, Some("T".to_string()))));
    assert_eq!(find_article(&notes, "absent"), None);
    // a tag that does not start with text ends the search
    let odd = vec![note(3, 30023, "", vec![vec![TagItem::Id([0; 32])], tag(&["d", "my:slug"])])];
    assert_eq!(find_article(&odd, "my:slug"), None);
}

#[test]
fn stats_markup() {
    assert_eq!(build_note_stats_html(&None, true), "");
    let zero = Some(vec![MetaEntry::Counts { reactions: 0, thread_replies: 0, direct_replies: 0, reposts: 0 }]);
    assert_eq!(build_note_stats_html(&zero, true), "");
    let meta = Some(vec![
        MetaEntry::Counts { reactions: 10, thread_replies: 7, direct_replies: 3, reposts: 0 },
        MetaEntry::Reaction { emoji: "🔥".to_string(), count: 2 },
        MetaEntry::Reaction { emoji: "+".to_string(), count: 5 },
        MetaEntry::Reaction { emoji: "🤙".to_string(), count: 3 },
    ]);
    let root = build_note_stats_html(&meta, true);
    assert!(root.starts_with("<div class=\"damus-note-stats\">"));
    assert!(root.contains("<span class=\"damus-stat-count\">7</span>"));
    assert!(!root.contains("M17 1l4 4-4 4"));
    // likes are the reactions not given as another emoji: 10 - (2 + 3)
    assert!(root.contains("❤️</span><span class=\"damus-stat-count\">5</span>"));
    let hot = root.find("🤙").unwrap();
    let fire = root.find("🔥").unwrap();
    assert!(hot < fire);
    let reply = build_note_stats_html(&meta, false);
    assert!(reply.contains("<span class=\"damus-stat-count\">3</span>"));
}

fn reply(id: u8, created_at: u64, reply_to: Option<[u8; 32]>, root: Option<[u8; 32]>, content: &str) -> ReplyNote {
    let mut n = note(id, 1, content, vec![]);
    n.created_at = created_at;
    ReplyNote { note: n, reply_id: reply_to, root_id: root, author: Some(profile(Some("bob"), None, None)) }
}

#[test]
fn direct_replies_oldest_first() {
    let target = [9u8; 32];
    let replies = vec![
        reply(1, 300, Some(target), None, "third"),
        reply(2, 100, None, Some(target), "first"),
        reply(3, 200, Some([8; 32]), Some(target), "deeper"),
        reply(4, 200, Some(target), None, "second <b>"),
    ];
    let html = build_replies_html(&replies, &target, "https://x", 1000);
    assert!(html.starts_with("<section class=\"damus-replies\">"));
    assert!(html.ends_with("</section>"));
    let a = html.find("first").unwrap();
    let b = html.find("second &lt;b&gt;").unwrap();
    let c = html.find("third").unwrap();
    assert!(a < b && b < c);
    assert!(!html.contains("deeper"));
    assert_eq!(html.matches("class=\"damus-reply\"").count(), 3);
    assert!(html.contains("<img src=\"/img/no-profile.svg\""));
    assert_eq!(build_replies_html(&vec![], &target, "https://x", 0), "");
    assert_eq!(build_replies_html(&vec![reply(5, 1, Some([1; 32]), None, "x")], &target, "https://x", 0), "");
}

#[test]
fn parent_of_a_reply() {
    assert!(get_parent_note_info(None, None, &None, "https://x", 0).is_none());
    let missing = get_parent_note_info(Some([1; 32]), None, &None, "https://x", 0).unwrap();
    assert_eq!(missing.link, format!("https://x/{}", note_bech(1)));
    assert_eq!(missing.pfp, "https://x/img/no-profile.svg");
    assert_eq!(missing.time_html, "");
    assert!(missing.name_html.ends_with("..."));
    let long = "x".repeat(250);
    let found = AuthoredNote { note: note(1, 1, &long, vec![]), author: Some(profile(Some("carol"), None, None)) };
    let info = get_parent_note_info(None, Some([1; 32]), &Some(found), "https://x", 1_000_000 + 7200).unwrap();
    assert_eq!(info.name_html, "carol");
    assert_eq!(info.time_html, "2h");
    assert_eq!(info.content_html, format!("{}...", "x".repeat(200)));
}

#[test]
fn content_blocks_render() {
    let mut body = String::new();
    let blocks = vec![
        Block::Text("hi <you>\nthere ".to_string()),
        Block::Url("https://a.b/c.png".to_string()),
        Block::Url("https://a.b/v.mp4".to_string()),
        Block::Url("https://a.b/page".to_string()),
        Block::Hashtag("nostr".to_string()),
        Block::MentionIndex("#[0]".to_string()),
        Block::MentionBech32 { text: "npub1abcdefghijk".to_string(), mention: Mention::Pubkey([1; 32]), profile: Some(profile(Some("dave"), None, None)) },
        Block::MentionBech32 { text: note_bech(1), mention: Mention::Note([1; 32]), profile: None },
    ];
    render_note_content(&mut body, &blocks);
    assert_eq!(
        body,
        "hi &lt;you&gt;<br/>there <img src=\"https://a.b/c.png\"><video src=\"https://a.b/v.mp4\" loop autoplay muted playsinline controls></video><a href=\"https://a.b/page\">https://a.b/page</a><span class=\"hashtag\">#nostr</span>@nostrich<a href=\"/npub1abcdefghijk\">@dave</a>"
    );
    assert_eq!(blocktype_name(&BlockType::MentionIndex), "indexed_mention");
}

#[test]
fn embedded_quotes() {
    assert_eq!(build_embedded_quotes_html(&vec![], 0), "");
    let q = QuoteRef::Event { id: [1; 32], bech32: Some("nevent1q".to_string()), relays: vec![] };
    let missing = vec![EmbedItem { quote: q, found: None }];
    assert_eq!(build_embedded_quotes_html(&missing, 0), "");
    let q = QuoteRef::Event { id: [1; 32], bech32: Some("nevent1q".to_string()), relays: vec![] };
    let long = format!("{}\nend", "y".repeat(300));
    let found = QuotedNote {
        note: note(1, 1, &long, vec![]),
        author: Some(profile(Some("erin"), None, Some("https://p/e.png"))),
        reply_parent_author: Some(Some(profile(Some("frank"), None, None))),
    };
    let html = build_embedded_quotes_html(&vec![EmbedItem { quote: q, found: Some(found) }], 1_000_060);
    assert!(html.starts_with("<div class=\"damus-embedded-quotes\"><a href=\"/nevent1q\" class=\"damus-embedded-quote\">"));
    assert!(html.contains("<span class=\"damus-embedded-quote-author\">erin</span> <span class=\"damus-embedded-quote-username\">@erin</span>"));
    assert!(html.contains("· 1m</span>"));
    assert!(html.contains("Replying to @frank"));
    assert!(html.contains("Show more"));
    assert!(html.contains("<img src=\"https://p/e.png\" class=\"damus-embedded-quote-avatar\""));
}

#[test]
fn embedded_article_card() {
    let q = QuoteRef::Article { addr: "30023:x:y".to_string(), bech32: Some("naddr1z".to_string()), relays: vec![] };
    let art = QuotedNote {
        note: note(2, 30024, "one two three", vec![tag(&["title", "Big <News>"]), tag(&["summary", "short"])]),
        author: None,
        reply_parent_author: None,
    };
    let html = build_embedded_quotes_html(&vec![EmbedItem { quote: q, found: Some(art) }], 0);
    assert!(html.contains("class=\"damus-embedded-quote damus-embedded-quote-article\""));
    assert!(html.contains("<div class=\"damus-embedded-article-title damus-embedded-article-draft\">Big &lt;News&gt;</div>"));
    assert!(html.contains("<div class=\"damus-embedded-article-summary\">short</div>"));
    assert!(html.contains("3 Words"));
    assert!(html.contains("nostrich"));
}

fn card(n: NoteData) -> NoteCardData {
    NoteCardData {
        note: n,
        blocks: None,
        author: Some(profile(Some("gina"), None, None)),
        reply_id: None,
        root_id: None,
        parent: None,
        quotes: vec![],
        meta: None,
        replies: vec![],
    }
}

#[test]
fn note_cards() {
    let c = card(note(1, 1, "hello & bye", vec![]));
    let html = build_note_content_html(&c, "https://x", &vec![], 0).unwrap();
    assert!(html.starts_with("<article class=\"damus-card damus-note\">"));
    assert!(html.contains("<div class=\"damus-note-body\">hello &amp; bye</div>"));
    assert!(html.contains("data-timestamp=\"1000000\""));
    assert!(html.contains("/nevent1"));
    let mut threaded = card(note(2, 1, "reply", vec![]));
    threaded.reply_id = Some([1; 32]);
    let html = build_note_content_html(&threaded, "https://x", &vec![], 0).unwrap();
    assert!(html.starts_with("<article class=\"damus-card damus-note damus-thread\">"));
}

#[test]
fn note_page_for_a_plain_note() {
    let d = NotePageData { card: card(note(1, 1, "a  note\n\nwith   space", vec![])), article_source: None };
    let nip = Nip19Ref::EventId([1; 32]);
    let page = build_note_page(&d, &nip, &vec![], "https://x", 0).unwrap().unwrap();
    let b = note_bech(1);
    assert!(page.starts_with("<!DOCTYPE html>"));
    assert!(page.contains("<title>gina on nostr</title>"));
    assert!(page.contains("<meta name=\"description\" content=\"a note with space\" />"));
    assert!(page.contains(&format!("<meta property=\"og:url\" content=\"https://x/{}\" />", b)));
    assert!(page.contains(&format!("<meta property=\"og:image\" content=\"https://x/{}.png\" />", b)));
    assert!(page.contains("<meta property=\"og:type\" content=\"website\" />"));
    assert!(page.contains(&format!("href=\"nostr:{}\"", b)));
}

#[test]
fn note_page_for_an_article() {
    let tags = vec![tag(&["title", "  Deep Dive "]), tag(&["image", " https://i/x.png "]), tag(&["t", "rust"])];
    let d = NotePageData { card: card(note(2, 30023, "# Heading\n\nbody", tags)), article_source: None };
    let nip = Nip19Ref::EventId([2; 32]);
    let page = build_note_page(&d, &nip, &vec![], "https://x", 0).unwrap().unwrap();
    assert!(page.contains("<title>Deep Dive on nostr</title>"));
    assert!(page.contains("<meta property=\"og:type\" content=\"article\" />"));
    assert!(page.contains("<meta property=\"og:image\" content=\"https://i/x.png\" />"));
    assert!(page.contains("<h1 class=\"damus-article-title\">Deep Dive</h1>"));
    assert!(page.contains("<h1>Heading</h1>"));
    assert!(page.contains("<span class=\"damus-article-topic\">#rust</span>"));
}

#[test]
fn note_page_for_a_highlight() {
    let tags = vec![tag(&["context", "The passage."]), tag(&["comment", "so true"]), tag(&["r", "https://blog.example.com/post"])];
    let d = NotePageData { card: card(note(3, 9802, "the passage", tags)), article_source: None };
    let nip = Nip19Ref::EventId([3; 32]);
    let page = build_note_page(&d, &nip, &vec![], "https://x", 0).unwrap().unwrap();
    assert!(page.contains("<title>Highlight by gina on nostr</title>"));
    assert!(page.contains("<blockquote class=\"damus-highlight-text\">the passage</blockquote>"));
    // the context is the highlighted text itself, up to case and punctuation
    assert!(!page.contains("damus-highlight-context"));
    assert!(page.contains("<div class=\"damus-highlight-comment\">so true</div>"));
    assert!(page.contains(">blog.example.com</a>"));
}

#[test]
fn highlight_cards_and_sources() {
    let html = build_highlight_content_html(&None, "https://x", 5, "text", Some("ctx"), Some(""), "");
    assert!(html.contains("<div class=\"damus-highlight-context\">…ctx…</div>"));
    assert!(!html.contains("damus-highlight-comment"));
    assert_eq!(
        build_url_source_link("https://http://example.com/a/b"),
        "<div class=\"damus-highlight-source\"><span class=\"damus-highlight-source-label\">From:</span> <a href=\"https://http://example.com/a/b\" target=\"_blank\" rel=\"noopener noreferrer\">example.com</a></div>"
    );
    assert!(build_note_source_link(&[1; 32]).contains(&format!("href=\"/{}\"", note_bech(1))));
    let addr = format!("30023:{}:slug", "04".repeat(32));
    let link = build_article_source_link(&addr, Some("T&C"), Some("ann"));
    assert!(link.contains(">T&amp;C by ann</a>"));
    assert_eq!(build_article_source_link("bad", None, None), "");
    let meta = extract_highlight_metadata(&vec![tag(&["a", &addr]), tag(&["r", "https://w.example/x"])]);
    let with_article = build_highlight_source_markup(&meta, &Some(ArticleSource { title: None, author: Some(profile(Some("ann"), None, None)) }));
    assert!(with_article.contains(">Article by ann</a>"));
    let without = build_highlight_source_markup(&meta, &None);
    assert!(without.contains(">w.example</a>"));
}

#[test]
fn article_card_parts() {
    let html = build_article_content_html(&None, 7, "T", Some(""), None, "<p>b</p>", &vec!["".to_string(), "x".to_string()], false, "https://x");
    assert!(!html.contains("damus-article-hero"));
    assert!(html.contains("<div class=\"damus-article-topics\"><span class=\"damus-article-topic\">#x</span></div>"));
    assert!(!html.contains("DRAFT"));
}

#[test]
fn profile_pages() {
    let mut p = profile(Some("  hank "), None, None);
    p.about = Some("line1\nline2".to_string());
    p.website = Some("hank.example".to_string());
    let relay_note = note(1, 10002, "", vec![tag(&["r", "wss://r1", "read"]), tag(&["r", "wss://r2"])]);
    let d = ProfilePageData { profile: Some(p), relay_lists: vec![relay_note], recent: Some(vec![]) };
    let nip = Nip19Ref::Pubkey([5; 32]);
    let page = build_profile_page(&d, &nip, "https://x", 0).unwrap();
    assert!(page.contains("<title>hank on nostr</title>"));
    assert!(page.contains("<div class=\"damus-profile-handle\">@hank</div>"));
    assert!(page.contains("<p class=\"damus-profile-about\">line1<br/>line2</p>"));
    assert!(page.contains("href=\"https://hank.example\""));
    assert!(page.contains("<summary>Relays (2)</summary>"));
    assert!(page.contains("<li>wss://r1<span class=\"damus-relay-role\"> – read</span></li>"));
    assert!(page.contains("No recent notes yet."));
    assert!(page.contains("https://damus.io/img/no-profile.svg"));
    let entries = latest_relay_list(&vec![]);
    assert!(entries.is_empty());
}

#[test]
fn profile_page_recent_notes_newest_first() {
    let mut older = card(note(1, 1, "older", vec![]));
    older.note.created_at = 10;
    let mut newer = card(note(2, 1, "newer", vec![]));
    newer.note.created_at = 20;
    let d = ProfilePageData { profile: None, relay_lists: vec![], recent: Some(vec![older, newer]) };
    let page = build_profile_page(&d, &Nip19Ref::Pubkey([5; 32]), "https://x", 0).unwrap();
    assert!(page.contains("No relay list published yet."));
    assert!(page.find("newer").unwrap() < page.find("older").unwrap());
}

#[test]
fn homepage_mentions_its_base() {
    let page = build_homepage("https://example.org");
    assert!(page.contains("<title>Damus — notecrumbs frontend</title>"));
    assert!(page.contains("<code>https://example.org/npub1example.json</code>"));
    assert!(page.contains("<code>https://example.org/note1example.png</code>"));
}

#[test]
fn note_json() {
    let blocks = Some(vec![Block::Text("hi \"x\"".to_string()), Block::Hashtag("t".to_string())]);
    let body = note_json_body("{\"id\":1}", &blocks, &Some("{\"p\":2}".to_string()));
    assert_eq!(body, "{\"note\":{\"id\":1},\"parsed_content\":[{\"text\":\"hi \\\"x\\\"\"},{\"hashtag\":\"t\"}],\"profile\":{\"p\":2}}\n");
    assert_eq!(note_json_body("{}", &None, &None), "{\"note\":{},\"parsed_content\":[]}\n");
}

#[test]
fn markdown_is_rendered_and_sanitized() {
    let html = render_markdown("**bold** <script>alert(1)</script>\n\n| a |\n|---|\n| b |");
    assert!(html.contains("<strong>bold</strong>"));
    assert!(!html.contains("<script>"));
    assert!(html.contains("<table>"));
}

#[test]
fn unknown_ids() {
    let mut u = UnknownIds::new();
    assert!(u.is_empty());
    let store = StoreSnapshot { notes: vec![StoredRef { id: [1; 32], author: [2; 32] }], profiles: vec![[3; 32]] };
    let refs = vec![
        QuoteRef::Event { id: [1; 32], bech32: None, relays: vec![] },
        QuoteRef::Event { id: [4; 32], bech32: None, relays: vec!["wss://a".to_string()] },
        QuoteRef::Article { addr: format!("30023:{}:s", "05".repeat(32)), bech32: None, relays: vec![] },
    ];
    u.collect_from_quote_refs(&refs, &store);
    assert_eq!(u.ids_len(), 2);
    u.add_note_if_missing(&[4; 32], &vec!["wss://b".to_string(), "wss://a".to_string()], false);
    assert_eq!(u.ids_len(), 2);
    let mut hints = u.relay_hints();
    hints.sort();
    assert_eq!(hints, vec!["wss://a".to_string(), "wss://b".to_string()]);
    let filters = u.to_filters();
    assert_eq!(filters.len(), 2);
    assert!(matches!(&filters[0], UnknownFilter::Notes(ids) if ids == &vec![[4u8; 32]]));
    assert!(matches!(&filters[1], UnknownFilter::Profiles(pks) if pks == &vec![[5u8; 32]]));
    let _ = UnknownId::NoteId([0; 32]);
}

#[test]
fn unknowns_of_a_note() {
    let mut u = UnknownIds::new();
    let store = StoreSnapshot { notes: vec![StoredRef { id: [1; 32], author: [2; 32] }], profiles: vec![[7; 32]] };
    let blocks = Some(vec![
        Block::MentionBech32 { text: "x".to_string(), mention: Mention::Note([1; 32]), profile: None },
        Block::MentionBech32 { text: "y".to_string(), mention: Mention::Pubkey([7; 32]), profile: None },
    ]);
    let root = Some(ThreadRef { id: [8; 32], relay: Some("wss://root.example".to_string()) });
    u.collect_from_note(&[7; 32], &root, &None, &blocks, &store);
    // the root note and the author of the mentioned stored note
    assert_eq!(u.ids_len(), 2);
    assert_eq!(u.relay_hints().len(), 1);
    assert!(UnknownIds::new().to_filters().is_empty());
}

#[test]
fn card_body_segments() {
    let blocks = vec![
        Block::Text("hi".to_string()),
        Block::Hashtag("tag".to_string()),
        Block::Url("https://i.example/a.png".to_string()),
        Block::MentionBech32 { text: "nsec1secretsecret".to_string(), mention: Mention::Secret, profile: None },
        Block::MentionBech32 { text: "npub1abcdefghijklm".to_string(), mention: Mention::Pubkey([1; 32]), profile: None },
    ];
    let segs = body_segments(&blocks);
    assert_eq!(segs.len(), 6);
    assert!(matches!(&segs[0], BodySegment::Text { text, accent: false } if text == "hi"));
    assert!(matches!(&segs[1], BodySegment::Text { text, accent: true } if text == "#"));
    assert!(matches!(&segs[3], BodySegment::Image(u) if u == "https://i.example/a.png"));
    assert!(matches!(&segs[4], BodySegment::Text { text, .. } if text == "--redacted--"));
    assert!(matches!(&segs[5], BodySegment::Text { text, .. } if text == "@npub1abcde..."));
    assert_eq!(username_label(&None), "@nostrich");
    assert_eq!(username_label(&Some(profile(Some("ivy"), None, None))), "@ivy");
}

#[test]
fn reaction_sums_beyond_u32_do_not_fit() {
    assert!(stats_sum_fits(&None));
    let small = Some(vec![
        MetaEntry::Reaction { emoji: "🔥".to_string(), count: 2 },
        MetaEntry::Reaction { emoji: "+".to_string(), count: u32::MAX },
    ]);
    assert!(stats_sum_fits(&small));
    let big = Some(vec![
        MetaEntry::Reaction { emoji: "🔥".to_string(), count: u32::MAX },
        MetaEntry::Reaction { emoji: "🎉".to_string(), count: 1 },
    ]);
    assert!(!stats_sum_fits(&big));
}
