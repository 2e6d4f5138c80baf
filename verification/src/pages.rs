//! Whole HTML pages: a note (or article, or highlight) page, a profile
//! page and the home page.
use vstd::prelude::*;
use crate::text::{trim, trim_seq, decimal, push_decimal, starts_with, has_prefix};
use crate::escape::{encode_text, encode_double_quoted_attribute, esc_text, esc_attr};
use crate::abbrev::{abbreviate, abbrev_prefix};
use crate::nip19::{
    Nip19Ref, Nip19View, opt_view, bech32_with_relays, with_relays_spec, nip19_relays, relays_of,
    clone_strings, nevent_bech32, spec_nevent_bech32,
};
use crate::profile::{ProfileInfo, ProfileView, pv, unwrap_or, trimmed_non_empty, trimmed_non_empty_of};
use crate::format::{
    collapse_whitespace, collapse_whitespace_spec, replace_char, replace_char_spec,
    normalize_for_comparison, normalize_spec,
};
use crate::metadata::{
    extract_article_metadata, article_meta_spec, extract_highlight_metadata, highlight_meta_spec,
};
use crate::article::{
    ArticleSource, build_article_content_html, article_card_html_spec,
    build_highlight_content_html, highlight_card_spec, build_highlight_source_markup,
    highlight_source_spec,
};
use crate::notecard::{NoteCardData, build_note_content_html, note_card_spec, parent_id_spec};
use crate::stats::{sum_counts, stats_fold};
use crate::error::Error;
use crate::blocks::{Block, block_type_spec, block_text, blocktype_name, blocktype_name_spec};
use crate::escape::{json_quote, json_quote_spec};

verus! {

pub const LOCAL_TIME_SCRIPT: &'static str = "\n        <script>\n          (function() {\n            'use strict';\n            if (!('Intl' in window) || typeof Intl.DateTimeFormat !== 'function') {\n              return;\n            }\n            var nodes = document.querySelectorAll('[data-timestamp]');\n            var displayFormatter = new Intl.DateTimeFormat(undefined, {\n              hour: 'numeric',\n              minute: '2-digit',\n              timeZoneName: 'short'\n            });\n            var titleFormatter = new Intl.DateTimeFormat(undefined, {\n              year: 'numeric',\n              month: 'short',\n              day: 'numeric',\n              hour: 'numeric',\n              minute: '2-digit',\n              second: '2-digit',\n              timeZoneName: 'long'\n            });\n            var monthNames = [\n              'Jan.',\n              'Feb.',\n              'Mar.',\n              'Apr.',\n              'May',\n              'Jun.',\n              'Jul.',\n              'Aug.',\n              'Sep.',\n              'Oct.',\n              'Nov.',\n              'Dec.'\n            ];\n            Array.prototype.forEach.call(nodes, function(node) {\n              var raw = node.getAttribute('data-timestamp');\n              if (!raw) {\n                return;\n              }\n              var timestamp = Number(raw);\n              if (!isFinite(timestamp)) {\n                return;\n              }\n              var date = new Date(timestamp * 1000);\n              if (isNaN(date.getTime())) {\n                return;\n              }\n              var shortText = displayFormatter.format(date);\n              var month = monthNames[date.getMonth()] || '';\n              var day = String(date.getDate());\n              var formattedDate = month\n                ? month + ' ' + day + ', ' + date.getFullYear()\n                : day + ', ' + date.getFullYear();\n              var combined = formattedDate + ' · ' + shortText;\n              node.textContent = combined;\n              node.setAttribute('title', titleFormatter.format(date));\n              node.setAttribute('datetime', date.toISOString());\n            });\n          }());\n        </script>\n";

pub const DAMUS_PLATFORM_SCRIPT: &'static str = "\n        <script>\n          (function() {\n            'use strict';\n            var PLATFORM_MAP = {\n              ios: {\n                url: 'https://apps.apple.com/us/app/damus/id1628663131',\n                target: '_blank',\n                rel: 'noopener noreferrer'\n              },\n              android: {\n                url: 'https://damus.io/android/',\n                target: '_blank',\n                rel: 'noopener noreferrer'\n              },\n              desktop: {\n                url: 'https://damus.io/notedeck/',\n                target: '_blank',\n                rel: 'noopener noreferrer'\n              }\n            };\n\n            var PLATFORM_LABELS = {\n              ios: 'iOS',\n              android: 'Android',\n              desktop: 'Desktop'\n            };\n\n            function detectPlatform() {\n              var ua = navigator.userAgent || '';\n              var platform = navigator.platform || '';\n              if (/android/i.test(ua)) {\n                return 'android';\n              }\n              if (/iPad|iPhone|iPod/.test(ua) || (/Macintosh/.test(ua) && 'ontouchend' in document)) {\n                return 'ios';\n              }\n              if (/Mac/.test(platform) || /Win/.test(platform) || /Linux/.test(platform)) {\n                return 'desktop';\n              }\n              return null;\n            }\n\n            var platform = detectPlatform();\n            var mapping = platform && PLATFORM_MAP[platform];\n            var anchors = document.querySelectorAll('[data-damus-cta]');\n\n            Array.prototype.forEach.call(anchors, function(anchor) {\n              var fallbackUrl = anchor.getAttribute('data-default-url') || anchor.getAttribute('href') || '';\n              var fallbackTarget = anchor.getAttribute('data-default-target') || anchor.getAttribute('target') || '';\n              var selected = mapping || { url: fallbackUrl, target: fallbackTarget };\n\n              if (selected.url) {\n                anchor.setAttribute('href', selected.url);\n              }\n\n              if (selected.target) {\n                anchor.setAttribute('target', selected.target);\n              } else {\n                anchor.removeAttribute('target');\n              }\n\n              if (mapping && mapping.rel) {\n                anchor.setAttribute('rel', mapping.rel);\n              } else if (!selected.target) {\n                anchor.removeAttribute('rel');\n              }\n\n              if (platform && mapping) {\n                anchor.setAttribute('data-damus-platform', platform);\n                var label = PLATFORM_LABELS[platform] || platform;\n                anchor.setAttribute('aria-label', 'Open in Damus (' + label + ')');\n              }\n            });\n          }());\n        </script>\n";

/// What pulldown-cmark renders Markdown `md` to, with tables, footnotes,
/// strikethrough and task lists enabled.
pub uninterp spec fn spec_markdown_html(md: Seq<char>) -> Seq<char>;

/// `pulldown_cmark::html::push_html` over `Parser::new_ext(md, options)`
/// into an empty string, with tables, footnotes, strikethrough and task
/// lists enabled.
#[verifier::external_body]
fn markdown_to_html(md: &str) -> (res: String)
    ensures
        res@ == spec_markdown_html(md@),
{
    let mut options = pulldown_cmark::Options::empty();
    options.insert(pulldown_cmark::Options::ENABLE_TABLES);
    options.insert(pulldown_cmark::Options::ENABLE_FOOTNOTES);
    options.insert(pulldown_cmark::Options::ENABLE_STRIKETHROUGH);
    options.insert(pulldown_cmark::Options::ENABLE_TASKLISTS);
    let mut html_buf = String::new();
    pulldown_cmark::html::push_html(&mut html_buf, pulldown_cmark::Parser::new_ext(md, options));
    html_buf
}

/// What ammonia's default sanitizer keeps of `html`.
pub uninterp spec fn spec_sanitize_html(html: Seq<char>) -> Seq<char>;

/// `ammonia::Builder::default().clean(html)`, as text.
#[verifier::external_body]
fn sanitize_html(html: &str) -> (res: String)
    ensures
        res@ == spec_sanitize_html(html@),
{
    ammonia::Builder::default().clean(html).to_string()
}

/// Markdown rendered to HTML and then sanitized.
pub fn render_markdown(markdown: &str) -> (res: String)
    ensures
        res@ == spec_sanitize_html(spec_markdown_html(markdown@)),
{
    let html = markdown_to_html(markdown);
    sanitize_html(html.as_str())
}

// ---------------------------------------------------------------------
// The note page
// ---------------------------------------------------------------------

/// What a note page shows, as the store has it.
#[derive(Debug)]
pub struct NotePageData {
    pub card: NoteCardData,
    /// For a highlight: the article its `a` tag names, when stored
    pub article_source: Option<ArticleSource>,
}

pub open spec fn is_article_kind(kind: u32) -> bool {
    kind == 30023 || kind == 30024
}

/// The author's name as given, else `nostrich`.
pub open spec fn profile_name_raw(author: Option<ProfileInfo>) -> Seq<char> {
    match pv(author) {
        Some(p) => unwrap_or(p.name, "nostrich"@),
        None => "nostrich"@,
    }
}

/// The summary of an article: its trimmed summary when not empty, else the
/// first 240 bytes of its content.
pub open spec fn summary_source_spec(d: NotePageData) -> Seq<char> {
    unwrap_or(
        trimmed_non_empty(article_meta_spec(d.card.note.tags@).summary),
        abbrev_prefix(d.card.note.content@, 240),
    )
}

pub open spec fn display_title_spec(d: NotePageData) -> Seq<char> {
    let name = profile_name_raw(d.card.author);
    if is_article_kind(d.card.note.kind) {
        unwrap_or(trimmed_non_empty(article_meta_spec(d.card.note.tags@).title), name)
    } else if d.card.note.kind == 9802 {
        "Highlight by "@ + name
    } else {
        name
    }
}

/// Title, description, image and type of a note page whose bech32 is `b`.
pub open spec fn note_head_spec(d: NotePageData, b: Seq<char>, base_url: Seq<char>) -> (
    Seq<char>,
    Seq<char>,
    Seq<char>,
    Seq<char>,
) {
    let n = d.card.note;
    let fallback = base_url + "/"@ + b + ".png"@;
    let title = display_title_spec(d);
    let desc0 = if is_article_kind(n.kind) {
        collapse_whitespace_spec(summary_source_spec(d))
    } else if n.kind == 9802 {
        collapse_whitespace_spec(abbrev_prefix(n.content@, 200))
    } else {
        collapse_whitespace_spec(abbrev_prefix(n.content@, 64))
    };
    let image0 = if is_article_kind(n.kind) {
        unwrap_or(trimmed_non_empty(article_meta_spec(n.tags@).image), fallback)
    } else {
        fallback
    };
    (
        title,
        if desc0.len() == 0 {
            title
        } else {
            desc0
        },
        if trim_seq(image0).len() == 0 {
            fallback
        } else {
            image0
        },
        if is_article_kind(n.kind) {
            "article"@
        } else {
            "website"@
        },
    )
}

/// The relays a regular note's link carries: those the note was fetched
/// from, else those of the identifier.
pub open spec fn card_relays(nip19: Nip19View, source: Seq<Seq<char>>) -> Seq<Seq<char>> {
    if source.len() == 0 {
        relays_of(nip19)
    } else {
        source
    }
}

/// The main content of a note page: an article card, a highlight card, or
/// the note card (`None` when its `nevent` cannot be encoded).
pub open spec fn note_main_spec(
    d: NotePageData,
    nip19: Nip19View,
    source: Seq<Seq<char>>,
    base_url: Seq<char>,
    now: u64,
) -> Option<Seq<char>> {
    let n = d.card.note;
    if is_article_kind(n.kind) {
        let meta = article_meta_spec(n.tags@);
        let summary = summary_source_spec(d);
        Some(
            article_card_html_spec(
                d.card.author,
                match meta.published_at {
                    Some(t) => t,
                    None => n.created_at,
                },
                esc_text(display_title_spec(d)),
                meta.image,
                if summary.len() == 0 {
                    None
                } else {
                    Some(esc_text(summary))
                },
                spec_sanitize_html(spec_markdown_html(n.content@)),
                meta.topics,
                n.kind == 30024,
                base_url,
            ),
        )
    } else if n.kind == 9802 {
        let hm = highlight_meta_spec(n.tags@);
        Some(
            highlight_card_spec(
                d.card.author,
                base_url,
                n.created_at,
                replace_char_spec(esc_text(n.content@), '\n', "<br/>"@),
                match hm.context {
                    Some(c) => if normalize_spec(c) != normalize_spec(n.content@) {
                        Some(esc_text(c))
                    } else {
                        None
                    },
                    None => None,
                },
                match hm.comment {
                    Some(c) => Some(esc_text(c)),
                    None => None,
                },
                highlight_source_spec(hm, d.article_source),
            ),
        )
    } else {
        match spec_nevent_bech32(n.id, None, None, card_relays(nip19, source)) {
            Some(nv) => Some(note_card_spec(d.card, base_url, nv, now)),
            None => None,
        }
    }
}

/// The note page around its main content `main`, for bech32 `bech32`.
pub open spec fn note_page_spec(
    h: (Seq<char>, Seq<char>, Seq<char>, Seq<char>),
    main: Seq<char>,
    bech32: Seq<char>,
    base_url: Seq<char>,
) -> Seq<char> {
    "<!DOCTYPE html>\n<html lang=\"en\">\n  <head>\n    <meta charset=\"UTF-8\" />\n    <title>"@ + esc_text(h.0 + " on nostr"@) + "</title>\n    <meta name=\"viewport\" content=\"width=device-width, initial-scale=1\" />\n    <meta name=\"description\" content=\""@ + esc_attr(h.1) + "\" />\n    <link rel=\"preload\" href=\"/fonts/PoetsenOne-Regular.ttf\" as=\"font\" type=\"font/ttf\" crossorigin />\n    <link rel=\"stylesheet\" href=\"/damus.css?v=7\" type=\"text/css\" />\n    <meta property=\"og:title\" content=\""@ + esc_attr(h.0 + " on nostr"@) + "\" />\n    <meta property=\"og:description\" content=\""@ + esc_attr(h.1) + "\" />\n    <meta property=\"og:type\" content=\""@ + h.3 + "\" />\n    <meta property=\"og:url\" content=\""@ + esc_attr(base_url + "/"@ + bech32) + "\" />\n    <meta property=\"og:image\" content=\""@ + esc_attr(h.2) + "\" />\n    <meta property=\"og:image:alt\" content=\""@ + esc_attr(h.0 + ": "@ + h.1) + "\" />\n    <meta property=\"og:image:height\" content=\"600\" />\n    <meta property=\"og:image:width\" content=\"1200\" />\n    <meta property=\"og:image:type\" content=\"image/png\" />\n    <meta property=\"og:site_name\" content=\"Damus\" />\n    <meta name=\"twitter:card\" content=\"summary_large_image\" />\n    <meta name=\"twitter:title\" content=\""@ + esc_attr(h.0 + " on nostr"@) + "\" />\n    <meta name=\"twitter:description\" content=\""@ + esc_attr(h.1) + "\" />\n    <meta name=\"twitter:image\" content=\""@ + esc_attr(h.2) + "\" />\n    <meta name=\"theme-color\" content=\"#bd66ff\" />\n  </head>\n  <body>\n    <div class=\"damus-app\">\n      <header class=\"damus-header\">\n        <a class=\"damus-logo-link\" href=\"https://damus.io\" target=\"_blank\" rel=\"noopener noreferrer\"><img class=\"damus-logo-image\" src=\"/assets/logo_icon.png?v=2\" alt=\"Damus\" width=\"40\" height=\"40\" /></a>\n        <div class=\"damus-header-actions\">\n          <a class=\"damus-cta\" data-damus-cta data-default-url=\"nostr:"@ + bech32 + "\" href=\"nostr:"@ + bech32 + "\">Open in Damus</a>\n        </div>\n      </header>\n      <main class=\"damus-main\">\n        "@ + main + "\n      </main>\n      <footer class=\"damus-footer\">\n        <a href=\"https://github.com/damus-io/notecrumbs\" target=\"_blank\" rel=\"noopener noreferrer\">Rendered by notecrumbs</a>\n      </footer>\n    </div>\n"@ + LOCAL_TIME_SCRIPT@ + DAMUS_PLATFORM_SCRIPT@ + "\n  </body>\n</html>\n"@
}

pub open spec fn stats_bound(d: NotePageData) -> bool {
    match d.card.meta {
        Some(es) => sum_counts(
            stats_fold(es@, parent_id_spec(d.card.reply_id, d.card.root_id) is None).3,
        ) <= u32::MAX,
        None => true,
    }
}

fn opt_str(o: &Option<String>) -> (res: Option<&str>)
    ensures
        match res {
            Some(s) => opt_view(*o) == Some(s@),
            None => o is None,
        },
{
    match o {
        Some(s) => Some(s.as_str()),
        None => None,
    }
}

fn note_main(
    d: &NotePageData,
    nip19: &Nip19Ref,
    source_relays: &Vec<String>,
    title: &str,
    summary: &str,
    base_url: &str,
    now: u64,
) -> (res: Option<String>)
    requires
        stats_bound(*d),
        title@ == display_title_spec(*d),
        is_article_kind(d.card.note.kind) ==> summary@ == summary_source_spec(*d),
    ensures
        match res {
            Some(m) => note_main_spec(*d, nip19@, source_relays.deep_view(), base_url@, now) == Some(m@),
            None => note_main_spec(*d, nip19@, source_relays.deep_view(), base_url@, now) is None,
        },
{
    let n = &d.card.note;
    proof {
        reveal_strlit("");
    }
    if n.kind == 30023 || n.kind == 30024 {
        let meta = extract_article_metadata(&n.tags);
        let timestamp = match meta.published_at {
            Some(t) => t,
            None => n.created_at,
        };
        let title_html = encode_text(title);
        let summary_html = if summary.unicode_len() == 0 {
            None
        } else {
            Some(encode_text(summary))
        };
        let body = render_markdown(n.content.as_str());
        Some(
            build_article_content_html(
                &d.card.author,
                timestamp,
                title_html.as_str(),
                opt_str(&meta.image),
                opt_str(&summary_html),
                body.as_str(),
                &meta.topics,
                n.kind == 30024,
                base_url,
            ),
        )
    } else if n.kind == 9802 {
        let hm = extract_highlight_metadata(&n.tags);
        let escaped = encode_text(n.content.as_str());
        let highlight_text_html = replace_char(escaped.as_str(), '\n', "<br/>");
        let content_normalized = normalize_for_comparison(n.content.as_str());
        let context_html = match &hm.context {
            Some(c) => {
                let nc = normalize_for_comparison(c.as_str());
                if !crate::text::str_eq(nc.as_str(), content_normalized.as_str()) {
                    Some(encode_text(c.as_str()))
                } else {
                    None
                }
            },
            None => None,
        };
        let comment_html = match &hm.comment {
            Some(c) => Some(encode_text(c.as_str())),
            None => None,
        };
        let source_markup = build_highlight_source_markup(&hm, &d.article_source);
        Some(
            build_highlight_content_html(
                &d.card.author,
                base_url,
                n.created_at,
                highlight_text_html.as_str(),
                opt_str(&context_html),
                opt_str(&comment_html),
                source_markup.as_str(),
            ),
        )
    } else {
        let relays = if source_relays.len() == 0 {
            nip19_relays(nip19)
        } else {
            clone_strings(source_relays)
        };
        build_note_content_html(&d.card, base_url, &relays, now)
    }
}

fn note_head(d: &NotePageData, bech32: &str, base_url: &str) -> (res: (String, String, String, &'static str, String))
    ensures
        (res.0@, res.1@, res.2@, res.3@) == note_head_spec(*d, bech32@, base_url@),
        res.0@ == display_title_spec(*d),
        is_article_kind(d.card.note.kind) ==> res.4@ == summary_source_spec(*d),
{
    let n = &d.card.note;
    let name = match &d.card.author {
        Some(p) => match &p.name {
            Some(x) => x.clone(),
            None => "nostrich".to_owned(),
        },
        None => "nostrich".to_owned(),
    };
    let mut fallback = base_url.to_owned();
    fallback.append("/");
    fallback.append(bech32);
    fallback.append(".png");
    let is_article = n.kind == 30023 || n.kind == 30024;
    let mut title = name.clone();
    let mut summary = String::new();
    let mut desc0 = String::new();
    let mut image0 = fallback.clone();
    if is_article {
        let meta = extract_article_metadata(&n.tags);
        if let Some(t) = trimmed_non_empty_of(&meta.title) {
            title = t;
        }
        summary = match trimmed_non_empty_of(&meta.summary) {
            Some(s) => s,
            None => abbreviate(n.content.as_str(), 240).to_owned(),
        };
        if let Some(i) = trimmed_non_empty_of(&meta.image) {
            image0 = i;
        }
        desc0 = collapse_whitespace(summary.as_str());
    } else if n.kind == 9802 {
        let mut t = String::new();
        t.append("Highlight by ");
        t.append(name.as_str());
        title = t;
        desc0 = collapse_whitespace(abbreviate(n.content.as_str(), 200));
    } else {
        desc0 = collapse_whitespace(abbreviate(n.content.as_str(), 64));
    }
    let og_desc = if desc0.as_str().unicode_len() == 0 {
        title.clone()
    } else {
        desc0
    };
    let og_image_raw = if trim(image0.as_str()).as_str().unicode_len() == 0 {
        fallback
    } else {
        image0
    };
    let og_type = if is_article {
        "article"
    } else {
        "website"
    };
    (title, og_desc, og_image_raw, og_type, summary)
}

fn note_page_doc(
    title: &str,
    og_desc: &str,
    og_image_raw: &str,
    og_type: &str,
    main: &str,
    bech32: &str,
    base_url: &str,
) -> (res: String)
    ensures
        res@ == note_page_spec((title@, og_desc@, og_image_raw@, og_type@), main@, bech32@, base_url@),
{
    let ghost h = (title@, og_desc@, og_image_raw@, og_type@);
    let mut page_title_text = title.to_owned();
    page_title_text.append(" on nostr");
    let page_title = encode_text(page_title_text.as_str());
    let og_title = encode_double_quoted_attribute(page_title_text.as_str());
    let og_description = encode_double_quoted_attribute(og_desc);
    let og_image = encode_double_quoted_attribute(og_image_raw);
    let mut alt = title.to_owned();
    alt.append(": ");
    alt.append(og_desc);
    let og_image_alt = encode_double_quoted_attribute(alt.as_str());
    let mut canonical_raw = base_url.to_owned();
    canonical_raw.append("/");
    canonical_raw.append(bech32);
    let canonical = encode_double_quoted_attribute(canonical_raw.as_str());
    let mut scripts = String::new();
    scripts.append(LOCAL_TIME_SCRIPT);
    scripts.append(DAMUS_PLATFORM_SCRIPT);
    let mut out = String::new();
    out.append("<!DOCTYPE html>\n<html lang=\"en\">\n  <head>\n    <meta charset=\"UTF-8\" />\n    <title>");
    out.append(page_title.as_str());
    out.append("</title>\n    <meta name=\"viewport\" content=\"width=device-width, initial-scale=1\" />\n    <meta name=\"description\" content=\"");
    out.append(og_description.as_str());
    out.append("\" />\n    <link rel=\"preload\" href=\"/fonts/PoetsenOne-Regular.ttf\" as=\"font\" type=\"font/ttf\" crossorigin />\n    <link rel=\"stylesheet\" href=\"/damus.css?v=7\" type=\"text/css\" />\n    <meta property=\"og:title\" content=\"");
    out.append(og_title.as_str());
    out.append("\" />\n    <meta property=\"og:description\" content=\"");
    out.append(og_description.as_str());
    out.append("\" />\n    <meta property=\"og:type\" content=\"");
    out.append(og_type);
    out.append("\" />\n    <meta property=\"og:url\" content=\"");
    out.append(canonical.as_str());
    out.append("\" />\n    <meta property=\"og:image\" content=\"");
    out.append(og_image.as_str());
    out.append("\" />\n    <meta property=\"og:image:alt\" content=\"");
    out.append(og_image_alt.as_str());
    out.append("\" />\n    <meta property=\"og:image:height\" content=\"600\" />\n    <meta property=\"og:image:width\" content=\"1200\" />\n    <meta property=\"og:image:type\" content=\"image/png\" />\n    <meta property=\"og:site_name\" content=\"Damus\" />\n    <meta name=\"twitter:card\" content=\"summary_large_image\" />\n    <meta name=\"twitter:title\" content=\"");
    out.append(og_title.as_str());
    out.append("\" />\n    <meta name=\"twitter:description\" content=\"");
    out.append(og_description.as_str());
    out.append("\" />\n    <meta name=\"twitter:image\" content=\"");
    out.append(og_image.as_str());
    out.append("\" />\n    <meta name=\"theme-color\" content=\"#bd66ff\" />\n  </head>\n  <body>\n    <div class=\"damus-app\">\n      <header class=\"damus-header\">\n        <a class=\"damus-logo-link\" href=\"https://damus.io\" target=\"_blank\" rel=\"noopener noreferrer\"><img class=\"damus-logo-image\" src=\"/assets/logo_icon.png?v=2\" alt=\"Damus\" width=\"40\" height=\"40\" /></a>\n        <div class=\"damus-header-actions\">\n          <a class=\"damus-cta\" data-damus-cta data-default-url=\"nostr:");
    out.append(bech32);
    out.append("\" href=\"nostr:");
    out.append(bech32);
    out.append("\">Open in Damus</a>\n        </div>\n      </header>\n      <main class=\"damus-main\">\n        ");
    out.append(main);
    out.append("\n      </main>\n      <footer class=\"damus-footer\">\n        <a href=\"https://github.com/damus-io/notecrumbs\" target=\"_blank\" rel=\"noopener noreferrer\">Rendered by notecrumbs</a>\n      </footer>\n    </div>\n");
    out.append(scripts.as_str());
    out.append("\n  </body>\n</html>\n");
    out
}

/// The HTML page of a note. `nip19` names it, `source_relays` are the
/// relays it was fetched from. An error when its bech32 cannot be encoded;
/// `Ok(None)` when the `nevent` of a regular note cannot be encoded.
pub fn build_note_page(
    d: &NotePageData,
    nip19: &Nip19Ref,
    source_relays: &Vec<String>,
    base_url: &str,
    now: u64,
) -> (res: Result<Option<String>, Error>)
    requires
        stats_bound(*d),
    ensures
        match with_relays_spec(nip19@, source_relays.deep_view()) {
            None => res matches Err(Error::Generic(m)) && m@ == "failed to encode nip19"@,
            Some(b) => match note_main_spec(*d, nip19@, source_relays.deep_view(), base_url@, now) {
                None => res == Ok::<Option<String>, Error>(None),
                Some(main) => res matches Ok(Some(p)) && p@ == note_page_spec(
                    note_head_spec(*d, b, base_url@),
                    main,
                    b,
                    base_url@,
                ),
            },
        },
{
    let b = match bech32_with_relays(nip19, source_relays) {
        Some(b) => b,
        None => return Err(Error::Generic("failed to encode nip19".to_owned())),
    };
    let (title, og_desc, og_image_raw, og_type, summary) = note_head(d, b.as_str(), base_url);
    let main = match note_main(d, nip19, source_relays, title.as_str(), summary.as_str(), base_url, now) {
        Some(m) => m,
        None => return Ok(None),
    };
    let page = note_page_doc(
        title.as_str(),
        og_desc.as_str(),
        og_image_raw.as_str(),
        og_type,
        main.as_str(),
        b.as_str(),
        base_url,
    );
    Ok(Some(page))
}


// ---------------------------------------------------------------------
// The home page
// ---------------------------------------------------------------------

pub const HOME_TITLE: &'static str = "Damus — notecrumbs frontend";

pub const HOME_DESCRIPTION: &'static str = "Explore Nostr profiles and notes with the Damus-inspired notecrumbs frontend.";

pub open spec fn homepage_spec(base_url: Seq<char>) -> Seq<char> {
    "<!DOCTYPE html>\n<html lang=\"en\">\n  <head>\n    <meta charset=\"UTF-8\" />\n    <title>"@ + esc_text(HOME_TITLE@) + "</title>\n    <meta name=\"viewport\" content=\"width=device-width, initial-scale=1\" />\n    <meta name=\"description\" content=\""@ + esc_attr(HOME_DESCRIPTION@) + "\" />\n    <link rel=\"preload\" href=\"/fonts/PoetsenOne-Regular.ttf\" as=\"font\" type=\"font/ttf\" crossorigin />\n    <link rel=\"stylesheet\" href=\"/damus.css?v=7\" type=\"text/css\" />\n    <meta property=\"og:title\" content=\""@ + esc_attr(HOME_TITLE@) + "\" />\n    <meta property=\"og:description\" content=\""@ + esc_attr(HOME_DESCRIPTION@) + "\" />\n    <meta property=\"og:type\" content=\"website\" />\n    <meta property=\"og:url\" content=\""@ + esc_attr(base_url) + "\" />\n    <meta property=\"og:image\" content=\""@ + esc_attr(base_url + "/assets/default_pfp.jpg"@) + "\" />\n    <meta property=\"og:site_name\" content=\"Damus\" />\n    <meta name=\"twitter:card\" content=\"summary_large_image\" />\n    <meta name=\"twitter:title\" content=\""@ + esc_attr(HOME_TITLE@) + "\" />\n    <meta name=\"twitter:description\" content=\""@ + esc_attr(HOME_DESCRIPTION@) + "\" />\n    <meta name=\"twitter:image\" content=\""@ + esc_attr(base_url + "/assets/default_pfp.jpg"@) + "\" />\n    <meta name=\"theme-color\" content=\"#bd66ff\" />\n  </head>\n  <body>\n    <div class=\"damus-app\">\n      <header class=\"damus-header\">\n        <a class=\"damus-logo-link\" href=\"https://damus.io\" target=\"_blank\" rel=\"noopener noreferrer\"><img class=\"damus-logo-image\" src=\"/assets/logo_icon.png?v=2\" alt=\"Damus\" width=\"40\" height=\"40\" /></a>\n        <div class=\"damus-header-actions\">\n          <a class=\"damus-link\" href=\"https://damus.io\" target=\"_blank\" rel=\"noopener noreferrer\">damus.io</a>\n          <a class=\"damus-cta\" data-damus-cta data-default-url=\"https://damus.io\" data-default-target=\"_blank\" rel=\"noopener noreferrer\" href=\"https://damus.io\">Open in Damus</a>\n        </div>\n      </header>\n      <main class=\"damus-main\">\n        <section class=\"damus-card\">\n          <h1>Damus</h1>\n          <p class=\"damus-supporting\">\n            New to Nostr? You're in the right place. This interface captures the Damus aesthetic while running locally on notecrumbs.\n          </p>\n          <p class=\"damus-supporting\">\n            Paste any Nostr bech32 identifier after the slash—for example <code>"@ + esc_text(base_url + "/npub1example"@) + "</code>—to render a profile or note instantly.\n          </p>\n        </section>\n        <section class=\"damus-card\" id=\"details\">\n          <h2 class=\"damus-section-title\">Quick paths</h2>\n          <ul>\n            <li><code>"@ + esc_text(base_url + "/npub1example"@) + "</code> — profile preview.</li>\n            <li><code>"@ + esc_text(base_url + "/note1example"@) + "</code> — note/article preview.</li>\n            <li><code>"@ + esc_text(base_url + "/note1example"@ + ".png"@) + "</code> — PNG share card.</li>\n            <li><code>"@ + esc_text(base_url + "/npub1example"@ + ".json"@) + "</code> — raw profile data.</li>\n          </ul>\n        </section>\n        <section class=\"damus-card\">\n          <p class=\"damus-supporting\">\n            Rendering is powered by <a href=\"https://github.com/damus-io/notecrumbs\" target=\"_blank\" rel=\"noopener noreferrer\">notecrumbs</a>.\n            Explore the official Damus apps and community at <a href=\"https://damus.io\" target=\"_blank\" rel=\"noopener noreferrer\">damus.io</a>.\n          </p>\n        </section>\n      </main>\n      <footer class=\"damus-footer\">\n        <span>Theme inspired by the Damus experience.</span>\n        <span>Bring your own keys &amp; relays.</span>\n      </footer>\n    </div>\n"@ + DAMUS_PLATFORM_SCRIPT@ + "\n  </body>\n</html>\n"@
}

/// The home page, with its links under `base_url`.
pub fn build_homepage(base_url: &str) -> (res: String)
    ensures
        res@ == homepage_spec(base_url@),
{
    let page_title = encode_text(HOME_TITLE);
    let description = encode_double_quoted_attribute(HOME_DESCRIPTION);
    let og_title = encode_double_quoted_attribute(HOME_TITLE);
    let canonical = encode_double_quoted_attribute(base_url);
    let mut og_image_url = base_url.to_owned();
    og_image_url.append("/assets/default_pfp.jpg");
    let og_image = encode_double_quoted_attribute(og_image_url.as_str());
    let mut profile_raw = base_url.to_owned();
    profile_raw.append("/npub1example");
    let mut note_raw = base_url.to_owned();
    note_raw.append("/note1example");
    let profile_example = encode_text(profile_raw.as_str());
    let note_example = encode_text(note_raw.as_str());
    let mut png_raw = note_raw.clone();
    png_raw.append(".png");
    let png_example = encode_text(png_raw.as_str());
    let mut json_raw = profile_raw.clone();
    json_raw.append(".json");
    let json_example = encode_text(json_raw.as_str());
    let mut out = String::new();
    out.append("<!DOCTYPE html>\n<html lang=\"en\">\n  <head>\n    <meta charset=\"UTF-8\" />\n    <title>");
    out.append(page_title.as_str());
    out.append("</title>\n    <meta name=\"viewport\" content=\"width=device-width, initial-scale=1\" />\n    <meta name=\"description\" content=\"");
    out.append(description.as_str());
    out.append("\" />\n    <link rel=\"preload\" href=\"/fonts/PoetsenOne-Regular.ttf\" as=\"font\" type=\"font/ttf\" crossorigin />\n    <link rel=\"stylesheet\" href=\"/damus.css?v=7\" type=\"text/css\" />\n    <meta property=\"og:title\" content=\"");
    out.append(og_title.as_str());
    out.append("\" />\n    <meta property=\"og:description\" content=\"");
    out.append(description.as_str());
    out.append("\" />\n    <meta property=\"og:type\" content=\"website\" />\n    <meta property=\"og:url\" content=\"");
    out.append(canonical.as_str());
    out.append("\" />\n    <meta property=\"og:image\" content=\"");
    out.append(og_image.as_str());
    out.append("\" />\n    <meta property=\"og:site_name\" content=\"Damus\" />\n    <meta name=\"twitter:card\" content=\"summary_large_image\" />\n    <meta name=\"twitter:title\" content=\"");
    out.append(og_title.as_str());
    out.append("\" />\n    <meta name=\"twitter:description\" content=\"");
    out.append(description.as_str());
    out.append("\" />\n    <meta name=\"twitter:image\" content=\"");
    out.append(og_image.as_str());
    out.append("\" />\n    <meta name=\"theme-color\" content=\"#bd66ff\" />\n  </head>\n  <body>\n    <div class=\"damus-app\">\n      <header class=\"damus-header\">\n        <a class=\"damus-logo-link\" href=\"https://damus.io\" target=\"_blank\" rel=\"noopener noreferrer\"><img class=\"damus-logo-image\" src=\"/assets/logo_icon.png?v=2\" alt=\"Damus\" width=\"40\" height=\"40\" /></a>\n        <div class=\"damus-header-actions\">\n          <a class=\"damus-link\" href=\"https://damus.io\" target=\"_blank\" rel=\"noopener noreferrer\">damus.io</a>\n          <a class=\"damus-cta\" data-damus-cta data-default-url=\"https://damus.io\" data-default-target=\"_blank\" rel=\"noopener noreferrer\" href=\"https://damus.io\">Open in Damus</a>\n        </div>\n      </header>\n      <main class=\"damus-main\">\n        <section class=\"damus-card\">\n          <h1>Damus</h1>\n          <p class=\"damus-supporting\">\n            New to Nostr? You're in the right place. This interface captures the Damus aesthetic while running locally on notecrumbs.\n          </p>\n          <p class=\"damus-supporting\">\n            Paste any Nostr bech32 identifier after the slash—for example <code>");
    out.append(profile_example.as_str());
    out.append("</code>—to render a profile or note instantly.\n          </p>\n        </section>\n        <section class=\"damus-card\" id=\"details\">\n          <h2 class=\"damus-section-title\">Quick paths</h2>\n          <ul>\n            <li><code>");
    out.append(profile_example.as_str());
    out.append("</code> — profile preview.</li>\n            <li><code>");
    out.append(note_example.as_str());
    out.append("</code> — note/article preview.</li>\n            <li><code>");
    out.append(png_example.as_str());
    out.append("</code> — PNG share card.</li>\n            <li><code>");
    out.append(json_example.as_str());
    out.append("</code> — raw profile data.</li>\n          </ul>\n        </section>\n        <section class=\"damus-card\">\n          <p class=\"damus-supporting\">\n            Rendering is powered by <a href=\"https://github.com/damus-io/notecrumbs\" target=\"_blank\" rel=\"noopener noreferrer\">notecrumbs</a>.\n            Explore the official Damus apps and community at <a href=\"https://damus.io\" target=\"_blank\" rel=\"noopener noreferrer\">damus.io</a>.\n          </p>\n        </section>\n      </main>\n      <footer class=\"damus-footer\">\n        <span>Theme inspired by the Damus experience.</span>\n        <span>Bring your own keys &amp; relays.</span>\n      </footer>\n    </div>\n");
    out.append(DAMUS_PLATFORM_SCRIPT);
    out.append("\n  </body>\n</html>\n");
    out
}


// ---------------------------------------------------------------------
// The JSON form of a note
// ---------------------------------------------------------------------

/// The parsed content as JSON objects `{"kind":"text"}`, comma-separated.
pub open spec fn blocks_json_spec(blocks: Seq<Block>) -> Seq<char>
    decreases blocks.len(),
{
    if blocks.len() == 0 {
        Seq::empty()
    } else {
        let b = blocks.last();
        blocks_json_spec(blocks.drop_last()) + (if blocks.len() > 1 {
            ","@
        } else {
            Seq::<char>::empty()
        }) + "{\""@ + blocktype_name_spec(block_type_spec(b)) + "\":"@ + json_quote_spec(
            block_text(b),
        ) + "}"@
    }
}

/// The JSON document of a note: the note's own JSON, its parsed content
/// (when the store has it) and its author's profile note (when stored).
pub open spec fn note_json_spec(
    note_json: Seq<char>,
    blocks: Option<Seq<Block>>,
    profile_json: Option<Seq<char>>,
) -> Seq<char> {
    "{\"note\":"@ + note_json + ",\"parsed_content\":["@ + match blocks {
        Some(b) => blocks_json_spec(b),
        None => Seq::<char>::empty(),
    } + "]"@ + match profile_json {
        Some(p) => ",\"profile\":"@ + p,
        None => Seq::<char>::empty(),
    } + "}\n"@
}

/// Builds the body of a note's JSON response.
#[verifier::rlimit(40)]
pub fn note_json_body(note_json: &str, blocks: &Option<Vec<Block>>, profile_json: &Option<String>) -> (res: String)
    ensures
        res@ == note_json_spec(
            note_json@,
            match blocks {
                Some(b) => Some(b@),
                None => None,
            },
            opt_view(*profile_json),
        ),
{
    proof {
        reveal_strlit("");
    }
    let mut body = String::new();
    body.append("{\"note\":");
    body.append(note_json);
    body.append(",\"parsed_content\":[");
    if let Some(bs) = blocks {
        let ghost head = body@;
        for i in 0..bs.len()
            invariant
                body@ == head + blocks_json_spec(bs@.take(i as int)),
        {
            assert(bs@.take(i + 1).drop_last() =~= bs@.take(i as int));
            if i != 0 {
                body.append(",");
            }
            let b = &bs[i];
            body.append("{\"");
            let t = b.blocktype();
            body.append(blocktype_name(&t));
            body.append("\":");
            let q = json_quote(b.as_str());
            body.append(q.as_str());
            body.append("}");
        }
        assert(bs@.take(bs.len() as int) =~= bs@);
    }
    body.append("]");
    if let Some(p) = profile_json {
        body.append(",\"profile\":");
        body.append(p.as_str());
    }
    body.append("}\n");
    body
}

} // verus!
