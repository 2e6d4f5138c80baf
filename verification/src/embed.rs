//! Embedded previews of quoted notes: the card shown under a note for each
//! event it quotes.
use vstd::prelude::*;
use crate::text::{decimal, push_decimal, trim_seq};
use crate::escape::{encode_text, encode_double_quoted_attribute, esc_text, esc_attr};
use crate::abbrev::{abbreviate, abbrev_prefix};
use crate::note::{TagItem, NoteData, tag_str, get_str};
use crate::nip19::opt_view;
use crate::profile::{
    ProfileInfo, ProfileView, pv, non_empty, non_blank, unwrap_or, quote_profile_spec,
    quote_profile_info, display_name_spec, get_profile_display_name, non_empty_of, non_blank_of,
    profile_picture,
};
use crate::format::{
    relative_time_spec, format_relative_time, replace_char, replace_char_spec, word_count,
    word_count_spec,
};
use crate::quotes::{QuoteRef, QuoteView, build_quote_link, quote_link_spec};

verus! {

/// A quoted note the store has, with what its preview shows of its author
/// and of the note it replies to.
#[derive(Debug)]
pub struct QuotedNote {
    pub note: NoteData,
    /// The author's stored profile
    pub author: Option<ProfileInfo>,
    /// When the note replies to a note the store has: that note's author's
    /// stored profile
    pub reply_parent_author: Option<Option<ProfileInfo>>,
}

/// A quote and the note it resolved to, if the store has it.
#[derive(Debug)]
pub struct EmbedItem {
    pub quote: QuoteRef,
    pub found: Option<QuotedNote>,
}

pub open spec fn pvv(p: Option<Option<ProfileInfo>>) -> Option<Option<ProfileView>> {
    match p {
        Some(q) => Some(pv(q)),
        None => None,
    }
}

/// `Replying to @name` when the parent is known and has a name.
pub open spec fn reply_html_spec(parent: Option<Option<ProfileInfo>>) -> Seq<char> {
    match parent {
        Some(p) => match display_name_spec(pv(p)) {
            Some(name) => "<div class=\"damus-embedded-quote-reply\">Replying to "@ + esc_text(
                "@"@ + name,
            ) + "</div>"@,
            None => Seq::empty(),
        },
        None => Seq::empty(),
    }
}

pub open spec fn quote_pfp_spec(author: Option<ProfileInfo>) -> Seq<char> {
    match non_blank(quote_profile_spec(pv(author)).2) {
        Some(url) => "<img src=\""@ + esc_attr(url)
            + "\" class=\"damus-embedded-quote-avatar\" alt=\"\" />"@,
        None => "<img src=\"/img/no-profile.svg\" class=\"damus-embedded-quote-avatar\" alt=\"\" />"@,
    }
}

pub open spec fn quote_username_spec(author: Option<ProfileInfo>) -> Seq<char> {
    match quote_profile_spec(pv(author)).1 {
        Some(u) => " <span class=\"damus-embedded-quote-username\">"@ + esc_text(u) + "</span>"@,
        None => Seq::empty(),
    }
}

/// Title, image and summary of an article, from its tags: the last of each
/// wins; an empty image or summary counts as none.
pub open spec fn article_fields(tags: Seq<Vec<TagItem>>) -> (
    Option<Seq<char>>,
    Option<Seq<char>>,
    Option<Seq<char>>,
)
    decreases tags.len(),
{
    if tags.len() == 0 {
        (None, None, None)
    } else {
        let f = article_fields(tags.drop_last());
        let tag = tags.last()@;
        match tag_str(tag, 0) {
            None => f,
            Some(name) => {
                let v = tag_str(tag, 1);
                if name == "title"@ {
                    (v, f.1, f.2)
                } else if name == "image"@ {
                    (f.0, non_empty(v), f.2)
                } else if name == "summary"@ {
                    (f.0, f.1, non_empty(v))
                } else {
                    f
                }
            },
        }
    }
}

pub open spec fn image_html_spec(image: Option<Seq<char>>) -> Seq<char> {
    match image {
        Some(url) => "<img src=\""@ + esc_attr(url)
            + "\" class=\"damus-embedded-article-image\" alt=\"\" />"@,
        None => Seq::empty(),
    }
}

pub open spec fn summary_html_spec(summary: Option<Seq<char>>) -> Seq<char> {
    match summary {
        Some(s) => "<div class=\"damus-embedded-article-summary\">"@ + esc_text(
            abbrev_prefix(s, 150),
        ) + "</div>"@,
        None => Seq::empty(),
    }
}

/// The card of a quoted article: image, title, summary and word count.
pub open spec fn article_card_spec(n: NoteData) -> Seq<char> {
    let f = article_fields(n.tags@);
    image_html_spec(f.1) + "<div class=\"damus-embedded-article-title"@ + (if n.kind == 30024 { " damus-embedded-article-draft"@ } else { Seq::<char>::empty() }) + "\">"@ + esc_text(unwrap_or(f.0, "Untitled article"@)) + "</div>"@ + summary_html_spec(f.2) + "<div class=\"damus-embedded-article-wordcount\">"@ + decimal(word_count_spec(n.content@)) + " Words"@ + "</div>"@
}

/// The preview text of a quoted note or highlight, cut to `limit` bytes,
/// with a `Show more` marker when cut.
pub open spec fn preview_spec(content: Seq<char>, limit: int, class: Seq<char>) -> Seq<char> {
    let c = abbrev_prefix(content, limit);
    "<div class=\"damus-embedded-quote-content"@ + class + "\">"@ + replace_char_spec(
        esc_text(c),
        '\n',
        " "@,
    ) + (if c.len() < content.len() {
        " <span class=\"damus-embedded-quote-showmore\">Show more</span>"@
    } else {
        Seq::<char>::empty()
    }) + "</div>"@
}

/// The class added to a preview and its body, by the quoted note's kind.
pub open spec fn quote_body_spec(n: NoteData) -> (Seq<char>, Seq<char>) {
    if n.kind == 30023 || n.kind == 30024 {
        (" damus-embedded-quote-article"@, article_card_spec(n))
    } else if n.kind == 9802 {
        (
            " damus-embedded-quote-highlight"@,
            preview_spec(n.content@, 200, " damus-embedded-quote-highlight"@),
        )
    } else {
        (Seq::empty(), preview_spec(n.content@, 280, Seq::empty()))
    }
}

/// The preview of one quoted note.
pub open spec fn embed_item_spec(q: QuoteView, n: QuotedNote, now: u64) -> Seq<char> {
    let cb = quote_body_spec(n.note);
    "<a href=\""@ + quote_link_spec(q) + "\" class=\"damus-embedded-quote"@ + cb.0 + "\">\n                <div class=\"damus-embedded-quote-header\">\n                    "@ + quote_pfp_spec(n.author) + "\n                    <span class=\"damus-embedded-quote-author\">"@ + esc_text(unwrap_or(quote_profile_spec(pv(n.author)).0, "nostrich"@)) + "</span>"@ + quote_username_spec(n.author) + "\n                    <span class=\"damus-embedded-quote-time\">· "@ + esc_text(relative_time_spec(n.note.created_at, now)) + "</span>\n                    "@ + "\n                </div>\n                "@ + reply_html_spec(n.reply_parent_author) + "\n                "@ + cb.1 + "\n            </a>"@
}

pub open spec fn embeds_spec(items: Seq<EmbedItem>, now: u64) -> Seq<char>
    decreases items.len(),
{
    if items.len() == 0 {
        Seq::empty()
    } else {
        let last = items.last();
        embeds_spec(items.drop_last(), now) + match last.found {
            Some(n) => embed_item_spec(last.quote@, n, now),
            None => Seq::empty(),
        }
    }
}

/// All previews in a wrapper, or nothing when no quoted note was found.
pub open spec fn embedded_quotes_spec(items: Seq<EmbedItem>, now: u64) -> Seq<char> {
    let all = embeds_spec(items, now);
    if all.len() == 0 {
        Seq::empty()
    } else {
        "<div class=\"damus-embedded-quotes\">"@ + all + "</div>"@
    }
}

fn reply_html(parent: &Option<Option<ProfileInfo>>) -> (res: String)
    ensures
        res@ == reply_html_spec(*parent),
{
    match parent {
        Some(p) => match get_profile_display_name(p) {
            Some(name) => {
                let mut at = String::new();
                at.append("@");
                at.append(name.as_str());
                let mut s = String::new();
                s.append("<div class=\"damus-embedded-quote-reply\">Replying to ");
                let e = encode_text(at.as_str());
                s.append(e.as_str());
                s.append("</div>");
                s
            },
            None => String::new(),
        },
        None => String::new(),
    }
}

fn article_fields_of(tags: &Vec<Vec<TagItem>>) -> (res: (Option<String>, Option<String>, Option<String>))
    ensures
        (opt_view(res.0), opt_view(res.1), opt_view(res.2)) == article_fields(tags@),
{
    let mut title: Option<String> = None;
    let mut image: Option<String> = None;
    let mut summary: Option<String> = None;
    for i in 0..tags.len()
        invariant
            (opt_view(title), opt_view(image), opt_view(summary)) == article_fields(
                tags@.take(i as int),
            ),
    {
        assert(tags@.take(i + 1).drop_last() =~= tags@.take(i as int));
        let tag = &tags[i];
        if let Some(name) = get_str(tag, 0) {
            let v: Option<String> = match get_str(tag, 1) {
                Some(x) => Some(x.clone()),
                None => None,
            };
            if crate::text::str_eq(name.as_str(), "title") {
                title = v;
            } else if crate::text::str_eq(name.as_str(), "image") {
                image = non_empty_of(&v);
            } else if crate::text::str_eq(name.as_str(), "summary") {
                summary = non_empty_of(&v);
            }
        }
    }
    assert(tags@.take(tags.len() as int) =~= tags@);
    (title, image, summary)
}

fn article_card(n: &NoteData) -> (res: String)
    ensures
        res@ == article_card_spec(*n),
{
    let (title, image, summary) = article_fields_of(&n.tags);
    let image_html = match &image {
        Some(url) => {
            let mut s = String::new();
            s.append("<img src=\"");
            let a = encode_double_quoted_attribute(url.as_str());
            s.append(a.as_str());
            s.append("\" class=\"damus-embedded-article-image\" alt=\"\" />");
            s
        },
        None => String::new(),
    };
    let summary_html = match &summary {
        Some(sm) => {
            let mut s = String::new();
            s.append("<div class=\"damus-embedded-article-summary\">");
            let t = encode_text(abbreviate(sm.as_str(), 150));
            s.append(t.as_str());
            s.append("</div>");
            s
        },
        None => String::new(),
    };
    let title_html = match &title {
        Some(t) => encode_text(t.as_str()),
        None => encode_text("Untitled article"),
    };
    proof {
        reveal_strlit("");
    }
    let draft = if n.kind == 30024 {
        " damus-embedded-article-draft"
    } else {
        ""
    };
    let mut words = String::new();
    let wc = word_count(n.content.as_str());
    push_decimal(&mut words, wc as u64);
    words.append(" Words");
    let mut card = String::new();
    card.append(image_html.as_str());
    card.append("<div class=\"damus-embedded-article-title");
    card.append(draft);
    card.append("\">");
    card.append(title_html.as_str());
    card.append("</div>");
    card.append(summary_html.as_str());
    card.append("<div class=\"damus-embedded-article-wordcount\">");
    card.append(words.as_str());
    card.append("</div>");
    card
}

fn preview(content: &str, limit: usize, class: &str) -> (res: String)
    ensures
        res@ == preview_spec(content@, limit as int, class@),
{
    let c = abbreviate(content, limit);
    let e = encode_text(c);
    let flat = replace_char(e.as_str(), '\n', " ");
    let mut s = String::new();
    s.append("<div class=\"damus-embedded-quote-content");
    s.append(class);
    s.append("\">");
    s.append(flat.as_str());
    if c.unicode_len() < content.unicode_len() {
        s.append(" <span class=\"damus-embedded-quote-showmore\">Show more</span>");
    }
    s.append("</div>");
    s
}

fn quote_body(n: &NoteData) -> (res: (&'static str, String))
    ensures
        (res.0@, res.1@) == quote_body_spec(*n),
{
    proof {
        reveal_strlit("");
    }
    if n.kind == 30023 || n.kind == 30024 {
        (" damus-embedded-quote-article", article_card(n))
    } else if n.kind == 9802 {
        (
            " damus-embedded-quote-highlight",
            preview(n.content.as_str(), 200, " damus-embedded-quote-highlight"),
        )
    } else {
        ("", preview(n.content.as_str(), 280, ""))
    }
}

/// The preview of one quoted note, linking to the quote.
pub fn build_embedded_quote(quote: &QuoteRef, n: &QuotedNote, now: u64) -> (res: String)
    ensures
        res@ == embed_item_spec(quote@, *n, now),
{
    let info = quote_profile_info(&n.author);
    let name = match &info.display_name {
        Some(d) => encode_text(d.as_str()),
        None => encode_text("nostrich"),
    };
    let username = match &info.username {
        Some(u) => {
            let mut s = String::new();
            s.append(" <span class=\"damus-embedded-quote-username\">");
            let e = encode_text(u.as_str());
            s.append(e.as_str());
            s.append("</span>");
            s
        },
        None => String::new(),
    };
    let pfp = match non_blank_of(&info.pfp_url) {
        Some(url) => {
            let mut s = String::new();
            s.append("<img src=\"");
            let a = encode_double_quoted_attribute(url.as_str());
            s.append(a.as_str());
            s.append("\" class=\"damus-embedded-quote-avatar\" alt=\"\" />");
            s
        },
        None => {
            let mut s = String::new();
            s.append("<img src=\"/img/no-profile.svg\" class=\"damus-embedded-quote-avatar\" alt=\"\" />");
            s
        },
    };
    let rt = format_relative_time(n.note.created_at, now);
    let time = encode_text(rt.as_str());
    let reply = reply_html(&n.reply_parent_author);
    let (cls, body) = quote_body(&n.note);
    let link = build_quote_link(quote);
    let mut out = String::new();
    out.append("<a href=\"");
    out.append(link.as_str());
    out.append("\" class=\"damus-embedded-quote");
    out.append(cls);
    out.append("\">\n                <div class=\"damus-embedded-quote-header\">\n                    ");
    out.append(pfp.as_str());
    out.append("\n                    <span class=\"damus-embedded-quote-author\">");
    out.append(name.as_str());
    out.append("</span>");
    out.append(username.as_str());
    out.append("\n                    <span class=\"damus-embedded-quote-time\">· ");
    out.append(time.as_str());
    out.append("</span>\n                    ");
    out.append("\n                </div>\n                ");
    out.append(reply.as_str());
    out.append("\n                ");
    out.append(body.as_str());
    out.append("\n            </a>");
    out
}

/// Builds the embedded previews of the quoted notes that were found, in
/// order; nothing when none was.
pub fn build_embedded_quotes_html(items: &Vec<EmbedItem>, now: u64) -> (res: String)
    ensures
        res@ == embedded_quotes_spec(items@, now),
{
    let mut all = String::new();
    for i in 0..items.len()
        invariant
            all@ == embeds_spec(items@.take(i as int), now),
    {
        assert(items@.take(i + 1).drop_last() =~= items@.take(i as int));
        let item = &items[i];
        if let Some(n) = &item.found {
            let h = build_embedded_quote(&item.quote, n, now);
            all.append(h.as_str());
        }
    }
    assert(items@.take(items.len() as int) =~= items@);
    if all.as_str().unicode_len() == 0 {
        return String::new();
    }
    let mut s = String::new();
    s.append("<div class=\"damus-embedded-quotes\">");
    s.append(all.as_str());
    s.append("</div>");
    s
}

} // verus!
