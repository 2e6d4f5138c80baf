//! The cards of long-form articles and highlights, and the links to what a
//! highlight was taken from.
use vstd::prelude::*;
use crate::text::{decimal, push_decimal, has_prefix, chars_of, sub_vec, string_of, take_before_first, before_first};
use crate::escape::{encode_text, encode_double_quoted_attribute, esc_text, esc_attr};
use crate::abbrev::{abbrev_str, abbrev_spec};
use crate::nip19::{opt_view, note_bech32, spec_note_bech32};
use crate::profile::{
    ProfileInfo, pv, author_display_spec, author_display_html, author_handle_spec,
    author_handle_html, pfp_url_attr, pfp_url_attr_spec, display_name_spec,
    get_profile_display_name,
};
use crate::quotes::{addr_naddr, addr_naddr_spec};
use crate::metadata::{HighlightMetadata, HighlightMetaView};

verus! {

pub open spec fn hero_spec(hero_image: Option<Seq<char>>) -> Seq<char> {
    match hero_image {
        Some(url) => if url.len() > 0 {
            "<img src=\""@ + esc_attr(url) + "\" class=\"damus-article-hero\" alt=\"Article header image\" />"@
        } else {
            Seq::empty()
        },
        None => Seq::empty(),
    }
}

pub open spec fn summary_markup_spec(summary_html: Option<Seq<char>>) -> Seq<char> {
    match summary_html {
        Some(s) => "<p class=\"damus-article-summary\">"@ + s + "</p>"@,
        None => Seq::empty(),
    }
}

pub open spec fn topic_spans(topics: Seq<Seq<char>>) -> Seq<char>
    decreases topics.len(),
{
    if topics.len() == 0 {
        Seq::empty()
    } else {
        topic_spans(topics.drop_last()) + if topics.last().len() == 0 {
            Seq::<char>::empty()
        } else {
            "<span class=\"damus-article-topic\">#"@ + esc_text(topics.last()) + "</span>"@
        }
    }
}

/// The topics as hashtags (empty topics skipped), or nothing when there are
/// no topics.
pub open spec fn topics_markup_spec(topics: Seq<Seq<char>>) -> Seq<char> {
    if topics.len() == 0 {
        Seq::empty()
    } else {
        "<div class=\"damus-article-topics\">"@ + topic_spans(topics) + "</div>"@
    }
}

/// The card of a long-form article; `title_html`, `summary_html` and
/// `body_html` are markup already, `hero_image` a URL.
pub open spec fn article_card_html_spec(
    author: Option<ProfileInfo>,
    timestamp: u64,
    title_html: Seq<char>,
    hero_image: Option<Seq<char>>,
    summary_html: Option<Seq<char>>,
    body_html: Seq<char>,
    topics: Seq<Seq<char>>,
    is_draft: bool,
    base_url: Seq<char>,
) -> Seq<char> {
    let draft = if is_draft {
        "<span class=\"damus-article-draft\">DRAFT</span>"@
    } else {
        Seq::empty()
    };
    "<article class=\"damus-card damus-note\">\n            <header class=\"damus-note-header\">\n               <img src=\""@ + pfp_url_attr_spec(pv(author), base_url) + "\" class=\"damus-note-avatar\" alt=\""@ + author_display_spec(pv(author)) + " profile picture\" />\n               <div>\n                 <div class=\"damus-note-author\">"@ + author_display_spec(pv(author)) + "</div>\n                 "@ + author_handle_spec(pv(author)) + "\n                 <time class=\"damus-note-time\" data-timestamp=\""@ + decimal(timestamp as nat) + "\" datetime=\""@ + decimal(timestamp as nat) + "\" title=\""@ + decimal(timestamp as nat) + "\">"@ + decimal(timestamp as nat) + "</time>\n               </div>\n            </header>\n            <h1 class=\"damus-article-title\">"@ + title_html + draft + "</h1>\n            "@ + hero_spec(hero_image) + "\n            "@ + summary_markup_spec(summary_html) + "\n            "@ + topics_markup_spec(topics) + "\n            <div class=\"damus-note-body\">"@ + body_html + "</div>\n        </article>"@
}

pub fn build_article_content_html(
    author: &Option<ProfileInfo>,
    timestamp: u64,
    article_title_html: &str,
    hero_image: Option<&str>,
    summary_html: Option<&str>,
    article_body_html: &str,
    topics: &Vec<String>,
    is_draft: bool,
    base_url: &str,
) -> (res: String)
    ensures
        res@ == article_card_html_spec(
            *author,
            timestamp,
            article_title_html@,
            match hero_image {
                Some(h) => Some(h@),
                None => None,
            },
            match summary_html {
                Some(h) => Some(h@),
                None => None,
            },
            article_body_html@,
            topics.deep_view(),
            is_draft,
            base_url@,
        ),
{
    proof {
        reveal_strlit("");
    }
    let pfp = pfp_url_attr(author, base_url);
    let mut ts = String::new();
    push_decimal(&mut ts, timestamp);
    let author_html = author_display_html(author);
    let handle = author_handle_html(author);
    let mut hero = String::new();
    if let Some(url) = hero_image {
        if url.unicode_len() > 0 {
            hero.append("<img src=\"");
            let a = encode_double_quoted_attribute(url);
            hero.append(a.as_str());
            hero.append("\" class=\"damus-article-hero\" alt=\"Article header image\" />");
        }
    }
    let mut summary = String::new();
    if let Some(sm) = summary_html {
        summary.append("<p class=\"damus-article-summary\">");
        summary.append(sm);
        summary.append("</p>");
    }
    let mut topics_markup = String::new();
    if topics.len() > 0 {
        topics_markup.append("<div class=\"damus-article-topics\">");
        let ghost head = topics_markup@;
        let ghost tv = topics.deep_view();
        for i in 0..topics.len()
            invariant
                tv == topics.deep_view(),
                topics_markup@ == head + topic_spans(tv.take(i as int)),
        {
            assert(tv.take(i + 1).drop_last() =~= tv.take(i as int));
            assert(tv.take(i + 1).last() == topics@[i as int]@);
            let topic = topics[i].as_str();
            if topic.unicode_len() > 0 {
                topics_markup.append("<span class=\"damus-article-topic\">#");
                let e = encode_text(topic);
                topics_markup.append(e.as_str());
                topics_markup.append("</span>");
            }
        }
        assert(tv.take(topics.len() as int) =~= tv);
        topics_markup.append("</div>");
    }
    let draft = if is_draft {
        "<span class=\"damus-article-draft\">DRAFT</span>"
    } else {
        ""
    };
    let mut out = String::new();
    out.append("<article class=\"damus-card damus-note\">\n            <header class=\"damus-note-header\">\n               <img src=\"");
    out.append(pfp.as_str());
    out.append("\" class=\"damus-note-avatar\" alt=\"");
    out.append(author_html.as_str());
    out.append(" profile picture\" />\n               <div>\n                 <div class=\"damus-note-author\">");
    out.append(author_html.as_str());
    out.append("</div>\n                 ");
    out.append(handle.as_str());
    out.append("\n                 <time class=\"damus-note-time\" data-timestamp=\"");
    out.append(ts.as_str());
    out.append("\" datetime=\"");
    out.append(ts.as_str());
    out.append("\" title=\"");
    out.append(ts.as_str());
    out.append("\">");
    out.append(ts.as_str());
    out.append("</time>\n               </div>\n            </header>\n            <h1 class=\"damus-article-title\">");
    out.append(article_title_html);
    out.append(draft);
    out.append("</h1>\n            ");
    out.append(hero.as_str());
    out.append("\n            ");
    out.append(summary.as_str());
    out.append("\n            ");
    out.append(topics_markup.as_str());
    out.append("\n            <div class=\"damus-note-body\">");
    out.append(article_body_html);
    out.append("</div>\n        </article>");
    out
}

pub open spec fn context_markup_spec(context_html: Option<Seq<char>>) -> Seq<char> {
    match context_html {
        Some(c) => if c.len() > 0 {
            "<div class=\"damus-highlight-context\">…"@ + c + "…</div>"@
        } else {
            Seq::empty()
        },
        None => Seq::empty(),
    }
}

pub open spec fn comment_markup_spec(comment_html: Option<Seq<char>>) -> Seq<char> {
    match comment_html {
        Some(c) => if c.len() > 0 {
            "<div class=\"damus-highlight-comment\">"@ + c + "</div>"@
        } else {
            Seq::empty()
        },
        None => Seq::empty(),
    }
}

/// The card of a highlight (NIP-84); the texts given are markup already.
pub open spec fn highlight_card_spec(
    author: Option<ProfileInfo>,
    base_url: Seq<char>,
    timestamp: u64,
    highlight_html: Seq<char>,
    context_html: Option<Seq<char>>,
    comment_html: Option<Seq<char>>,
    source_markup: Seq<char>,
) -> Seq<char> {
    "<article class=\"damus-card damus-highlight\">\n            <header class=\"damus-note-header\">\n               <img src=\""@ + pfp_url_attr_spec(pv(author), base_url) + "\" class=\"damus-note-avatar\" alt=\""@ + author_display_spec(pv(author)) + " profile picture\" />\n               <div>\n                 <div class=\"damus-note-author\">"@ + author_display_spec(pv(author)) + "</div>\n                 "@ + author_handle_spec(pv(author)) + "\n                 <time class=\"damus-note-time\" data-timestamp=\""@ + decimal(timestamp as nat) + "\" datetime=\""@ + decimal(timestamp as nat) + "\" title=\""@ + decimal(timestamp as nat) + "\">"@ + decimal(timestamp as nat) + "</time>\n               </div>\n            </header>\n            "@ + comment_markup_spec(comment_html) + "\n            <blockquote class=\"damus-highlight-text\">"@ + highlight_html + "</blockquote>\n            "@ + context_markup_spec(context_html) + "\n            "@ + source_markup + "\n        </article>"@
}

pub fn build_highlight_content_html(
    author: &Option<ProfileInfo>,
    base_url: &str,
    timestamp: u64,
    highlight_text_html: &str,
    context_html: Option<&str>,
    comment_html: Option<&str>,
    source_markup: &str,
) -> (res: String)
    ensures
        res@ == highlight_card_spec(
            *author,
            base_url@,
            timestamp,
            highlight_text_html@,
            match context_html {
                Some(h) => Some(h@),
                None => None,
            },
            match comment_html {
                Some(h) => Some(h@),
                None => None,
            },
            source_markup@,
        ),
{
    let author_html = author_display_html(author);
    let handle = author_handle_html(author);
    let pfp = pfp_url_attr(author, base_url);
    let mut ts = String::new();
    push_decimal(&mut ts, timestamp);
    let mut context = String::new();
    if let Some(c) = context_html {
        if c.unicode_len() > 0 {
            context.append("<div class=\"damus-highlight-context\">…");
            context.append(c);
            context.append("…</div>");
        }
    }
    let mut comment = String::new();
    if let Some(c) = comment_html {
        if c.unicode_len() > 0 {
            comment.append("<div class=\"damus-highlight-comment\">");
            comment.append(c);
            comment.append("</div>");
        }
    }
    let mut out = String::new();
    out.append("<article class=\"damus-card damus-highlight\">\n            <header class=\"damus-note-header\">\n               <img src=\"");
    out.append(pfp.as_str());
    out.append("\" class=\"damus-note-avatar\" alt=\"");
    out.append(author_html.as_str());
    out.append(" profile picture\" />\n               <div>\n                 <div class=\"damus-note-author\">");
    out.append(author_html.as_str());
    out.append("</div>\n                 ");
    out.append(handle.as_str());
    out.append("\n                 <time class=\"damus-note-time\" data-timestamp=\"");
    out.append(ts.as_str());
    out.append("\" datetime=\"");
    out.append(ts.as_str());
    out.append("\" title=\"");
    out.append(ts.as_str());
    out.append("\">");
    out.append(ts.as_str());
    out.append("</time>\n               </div>\n            </header>\n            ");
    out.append(comment.as_str());
    out.append("\n            <blockquote class=\"damus-highlight-text\">");
    out.append(highlight_text_html);
    out.append("</blockquote>\n            ");
    out.append(context.as_str());
    out.append("\n            ");
    out.append(source_markup);
    out.append("\n        </article>");
    out
}

// ---------------------------------------------------------------------
// Highlight sources
// ---------------------------------------------------------------------

/// The link to a source article: its title and author when known, else
/// its abbreviated `naddr`; nothing when the address does not give one.
pub open spec fn article_source_spec(addr: Seq<char>, title: Option<Seq<char>>, author: Option<Seq<char>>) -> Seq<char> {
    match addr_naddr_spec(addr) {
        None => Seq::empty(),
        Some(naddr) => {
            let display = match (title, author) {
                (Some(t), Some(a)) => esc_text(t) + " by "@ + esc_text(a),
                (Some(t), None) => esc_text(t),
                (None, Some(a)) => "Article by "@ + esc_text(a),
                (None, None) => abbrev_spec(naddr),
            };
            "<div class=\"damus-highlight-source\"><span class=\"damus-highlight-source-label\">From article:</span> <a href=\""@
                + esc_attr("/"@ + naddr) + "\">"@ + display + "</a></div>"@
        },
    }
}

/// Builds the source link for an article reference.
pub fn build_article_source_link(addr: &str, title: Option<&str>, author: Option<&str>) -> (res: String)
    ensures
        res@ == article_source_spec(
            addr@,
            match title {
                Some(t) => Some(t@),
                None => None,
            },
            match author {
                Some(a) => Some(a@),
                None => None,
            },
        ),
{
    let naddr = match addr_naddr(addr) {
        Some(n) => n,
        None => return String::new(),
    };
    let display = match (title, author) {
        (Some(t), Some(a)) => {
            let mut d = encode_text(t);
            d.append(" by ");
            let e = encode_text(a);
            d.append(e.as_str());
            d
        },
        (Some(t), None) => encode_text(t),
        (None, Some(a)) => {
            let mut d = String::new();
            d.append("Article by ");
            let e = encode_text(a);
            d.append(e.as_str());
            d
        },
        (None, None) => abbrev_str(naddr.as_str()),
    };
    let mut href_raw = String::new();
    href_raw.append("/");
    href_raw.append(naddr.as_str());
    let href = encode_double_quoted_attribute(href_raw.as_str());
    let mut out = String::new();
    out.append("<div class=\"damus-highlight-source\"><span class=\"damus-highlight-source-label\">From article:</span> <a href=\"");
    out.append(href.as_str());
    out.append("\">");
    out.append(display.as_str());
    out.append("</a></div>");
    out
}

pub open spec fn note_source_spec(event_id: [u8; 32]) -> Seq<char> {
    let note = spec_note_bech32(event_id@);
    "<div class=\"damus-highlight-source\"><span class=\"damus-highlight-source-label\">From note:</span> <a href=\""@
        + esc_attr("/"@ + note) + "\">"@ + abbrev_spec(note) + "</a></div>"@
}

/// Builds the source link for a note reference.
pub fn build_note_source_link(event_id: &[u8; 32]) -> (res: String)
    ensures
        res@ == note_source_spec(*event_id),
{
    let note = note_bech32(*event_id);
    let mut href_raw = String::new();
    href_raw.append("/");
    href_raw.append(note.as_str());
    let href = encode_double_quoted_attribute(href_raw.as_str());
    let abbrev = abbrev_str(note.as_str());
    let mut out = String::new();
    out.append("<div class=\"damus-highlight-source\"><span class=\"damus-highlight-source-label\">From note:</span> <a href=\"");
    out.append(href.as_str());
    out.append("\">");
    out.append(abbrev.as_str());
    out.append("</a></div>");
    out
}

/// `s` without every leading repetition of `p` (`trim_start_matches`).
pub open spec fn strip_prefixes(s: Seq<char>, p: Seq<char>) -> Seq<char>
    decreases s.len(),
{
    if p.len() > 0 && has_prefix(s, p) {
        strip_prefixes(s.skip(p.len() as int), p)
    } else {
        s
    }
}

fn strip_prefixes_exec(v: Vec<char>, p: &str) -> (res: Vec<char>)
    ensures
        res@ == strip_prefixes(v@, p@),
    decreases v.len(),
{
    let pv = chars_of(p);
    if pv.len() > 0 && pv.len() <= v.len() {
        let head = sub_vec(&v, 0, pv.len());
        assert(head@ =~= v@.take(pv.len() as int));
        if crate::text::seq_eq(&head, &pv) {
            assert(has_prefix(v@, p@));
            let rest = sub_vec(&v, pv.len(), v.len());
            assert(rest@ =~= v@.skip(pv.len() as int));
            return strip_prefixes_exec(rest, p);
        }
    }
    v
}

/// The domain of a URL: what precedes the first `/` once every leading
/// `https://`, then every leading `http://`, is removed.
pub open spec fn url_domain(url: Seq<char>) -> Seq<char> {
    before_first(strip_prefixes(strip_prefixes(url, "https://"@), "http://"@), '/')
}

pub open spec fn url_source_spec(url: Seq<char>) -> Seq<char> {
    "<div class=\"damus-highlight-source\"><span class=\"damus-highlight-source-label\">From:</span> <a href=\""@
        + esc_attr(url) + "\" target=\"_blank\" rel=\"noopener noreferrer\">"@ + esc_text(
        url_domain(url),
    ) + "</a></div>"@
}

/// Builds the source link for a web URL.
pub fn build_url_source_link(url: &str) -> (res: String)
    ensures
        res@ == url_source_spec(url@),
{
    let v = chars_of(url);
    let a = strip_prefixes_exec(v, "https://");
    let b = strip_prefixes_exec(a, "http://");
    let d = take_before_first(&b, '/');
    let domain = string_of(&d);
    let href = encode_double_quoted_attribute(url);
    let domain_html = encode_text(domain.as_str());
    let mut out = String::new();
    out.append("<div class=\"damus-highlight-source\"><span class=\"damus-highlight-source-label\">From:</span> <a href=\"");
    out.append(href.as_str());
    out.append("\" target=\"_blank\" rel=\"noopener noreferrer\">");
    out.append(domain_html.as_str());
    out.append("</a></div>");
    out
}

/// The article a highlight's `a` tag names, as the store has it: its title
/// and its author's stored profile.
#[derive(Debug)]
pub struct ArticleSource {
    pub title: Option<String>,
    pub author: Option<ProfileInfo>,
}

/// Where a highlight comes from, preferring a stored article, then a note,
/// then a web page; nothing when none is known.
pub open spec fn highlight_source_spec(meta: HighlightMetaView, article: Option<ArticleSource>) -> Seq<char> {
    match (meta.source_article_addr, article) {
        (Some(addr), Some(a)) => article_source_spec(addr, opt_view(a.title), display_name_spec(pv(a.author))),
        _ => match meta.source_event_id {
            Some(id) => note_source_spec(id),
            None => match meta.source_url {
                Some(u) => url_source_spec(u),
                None => Seq::empty(),
            },
        },
    }
}

/// Builds the source attribution of a highlight. `article` is the article
/// its address names, when the store has it.
pub fn build_highlight_source_markup(meta: &HighlightMetadata, article: &Option<ArticleSource>) -> (res: String)
    ensures
        res@ == highlight_source_spec(meta@, *article),
{
    if let Some(addr) = &meta.source_article_addr {
        if let Some(a) = article {
            let author_name = get_profile_display_name(&a.author);
            let title = match &a.title {
                Some(t) => Some(t.as_str()),
                None => None,
            };
            let author = match &author_name {
                Some(n) => Some(n.as_str()),
                None => None,
            };
            return build_article_source_link(addr.as_str(), title, author);
        }
    }
    if let Some(id) = &meta.source_event_id {
        return build_note_source_link(id);
    }
    if let Some(u) = &meta.source_url {
        return build_url_source_link(u.as_str());
    }
    String::new()
}

} // verus!
