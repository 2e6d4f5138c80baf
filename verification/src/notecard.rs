//! The card of a note: its rendered content, the note it replies to, its
//! stats, quotes and direct replies.
use vstd::prelude::*;
use crate::text::{decimal, push_decimal};
use crate::escape::{encode_text, encode_double_quoted_attribute, esc_text, esc_attr};
use crate::abbrev::{abbreviate, abbrev_prefix, abbrev_str, abbrev_spec};
use crate::note::NoteData;
use crate::nip19::{note_bech32, spec_note_bech32, nevent_bech32, spec_nevent_bech32, opt_view};
use crate::profile::{
    ProfileInfo, ProfileView, pv, non_empty, unwrap_or, display_name_spec,
    get_profile_display_name, author_display_spec, author_display_html, profile_picture,
    non_empty_of, pfp_url_attr, pfp_url_attr_spec,
};
use crate::format::{relative_time_spec, format_relative_time, replace_char, replace_char_spec};
use crate::urls::{is_image, is_image_spec, is_video, is_video_spec};
use crate::blocks::{Block, Mention};
use crate::quotes::{
    id_eq, QuoteRef, quotes_view, extract_quote_refs_from_tags, extract_quote_refs_from_content,
    merge_quote_refs, merge_targets_spec, quotes_from_tags_spec, quotes_from_blocks_spec,
};
use crate::note::TagItem;
use crate::nip19::{npub_bech32, spec_npub_bech32};
use crate::profile::{author_handle_html, author_handle_spec};
use crate::embed::{EmbedItem, build_embedded_quotes_html, embedded_quotes_spec};
use crate::stats::{MetaEntry, build_note_stats_html, stats_spec, meta_view, sum_counts, stats_fold};

verus! {

// ---------------------------------------------------------------------
// Content
// ---------------------------------------------------------------------

/// The markup of one content block.
pub open spec fn block_html(b: Block) -> Seq<char> {
    match b {
        Block::Url(t) => {
            let url = esc_text(t@);
            if is_image_spec(url) {
                "<img src=\""@ + url + "\">"@
            } else if is_video_spec(url) {
                "<video src=\""@ + url + "\" loop autoplay muted playsinline controls></video>"@
            } else {
                "<a href=\""@ + url + "\">"@ + url + "</a>"@
            }
        },
        Block::Hashtag(t) => "<span class=\"hashtag\">#"@ + esc_text(t@) + "</span>"@,
        Block::Text(t) => replace_char_spec(esc_text(t@), '\n', "<br/>"@),
        Block::Invoice(t) => t@,
        Block::MentionIndex(_) => "@nostrich"@,
        Block::MentionBech32 { text, mention, profile } => match mention {
            Mention::Profile { .. } | Mention::Pubkey(_) => "<a href=\"/"@ + text@ + "\">@"@
                + esc_text(unwrap_or(display_name_spec(pv(profile)), abbrev_spec(text@)))
                + "</a>"@,
            Mention::Event { .. } | Mention::Note(_) => Seq::empty(),
            _ => "<a href=\"/"@ + text@ + "\">"@ + abbrev_spec(text@) + "</a>"@,
        },
    }
}

pub open spec fn content_html_spec(blocks: Seq<Block>) -> Seq<char>
    decreases blocks.len(),
{
    if blocks.len() == 0 {
        Seq::empty()
    } else {
        content_html_spec(blocks.drop_last()) + block_html(blocks.last())
    }
}

fn push_block_html(body: &mut String, block: &Block)
    ensures
        final(body)@ == old(body)@ + block_html(*block),
{
    match block {
        Block::Url(t) => {
            let url = encode_text(t.as_str());
            if is_image(url.as_str()) {
                body.append("<img src=\"");
                body.append(url.as_str());
                body.append("\">");
            } else if is_video(url.as_str()) {
                body.append("<video src=\"");
                body.append(url.as_str());
                body.append("\" loop autoplay muted playsinline controls></video>");
            } else {
                body.append("<a href=\"");
                body.append(url.as_str());
                body.append("\">");
                body.append(url.as_str());
                body.append("</a>");
            }
        },
        Block::Hashtag(t) => {
            body.append("<span class=\"hashtag\">#");
            let e = encode_text(t.as_str());
            body.append(e.as_str());
            body.append("</span>");
        },
        Block::Text(t) => {
            let e = encode_text(t.as_str());
            let r = replace_char(e.as_str(), '\n', "<br/>");
            body.append(r.as_str());
        },
        Block::Invoice(t) => {
            body.append(t.as_str());
        },
        Block::MentionIndex(_) => {
            body.append("@nostrich");
        },
        Block::MentionBech32 { text, mention, profile } => match mention {
            Mention::Profile { .. } | Mention::Pubkey(_) => {
                let display = match get_profile_display_name(profile) {
                    Some(d) => d,
                    None => abbrev_str(text.as_str()),
                };
                body.append("<a href=\"/");
                body.append(text.as_str());
                body.append("\">@");
                let e = encode_text(display.as_str());
                body.append(e.as_str());
                body.append("</a>");
            },
            Mention::Event { .. } | Mention::Note(_) => {},
            _ => {
                body.append("<a href=\"/");
                body.append(text.as_str());
                body.append("\">");
                let a = abbrev_str(text.as_str());
                body.append(a.as_str());
                body.append("</a>");
            },
        },
    }
}

/// Appends the markup of a note's content blocks, in order: links, images
/// and videos for URLs, hashtags, escaped text with line breaks, and
/// mentions by name (quoted events are left to the embedded quotes).
pub fn render_note_content(body: &mut String, blocks: &Vec<Block>)
    ensures
        final(body)@ == old(body)@ + content_html_spec(blocks@),
{
    let ghost start = body@;
    for i in 0..blocks.len()
        invariant
            body@ == start + content_html_spec(blocks@.take(i as int)),
    {
        assert(blocks@.take(i + 1).drop_last() =~= blocks@.take(i as int));
        push_block_html(body, &blocks[i]);
    }
    assert(blocks@.take(blocks.len() as int) =~= blocks@);
}

// ---------------------------------------------------------------------
// Shortened text
// ---------------------------------------------------------------------

/// `content` cut to `limit` bytes as HTML text, with `...` when cut.
pub open spec fn cut_html_spec(content: Seq<char>, limit: int) -> Seq<char> {
    let c = abbrev_prefix(content, limit);
    esc_text(c) + if c.len() < content.len() {
        "..."@
    } else {
        Seq::<char>::empty()
    }
}

fn cut_html(content: &str, limit: usize) -> (res: String)
    ensures
        res@ == cut_html_spec(content@, limit as int),
{
    let c = abbreviate(content, limit);
    let mut s = encode_text(c);
    if c.unicode_len() < content.unicode_len() {
        s.append("...");
    }
    proof {
        reveal_strlit("");
    }
    s
}

// ---------------------------------------------------------------------
// The note replied to
// ---------------------------------------------------------------------

/// What a thread view shows of the note that a note replies to.
#[derive(Debug)]
pub struct ParentNoteInfo {
    pub link: String,
    pub pfp: String,
    pub name_html: String,
    pub time_html: String,
    pub content_html: String,
}

/// A note the store has, with its author's stored profile.
#[derive(Debug)]
pub struct AuthoredNote {
    pub note: NoteData,
    pub author: Option<ProfileInfo>,
}

pub open spec fn parent_info_spec(
    parent_id: [u8; 32],
    found: Option<AuthoredNote>,
    base_url: Seq<char>,
    now: u64,
) -> (Seq<char>, Seq<char>, Seq<char>, Seq<char>, Seq<char>) {
    let link = base_url + "/"@ + spec_note_bech32(parent_id@);
    match found {
        Some(p) => (
            link,
            pfp_url_attr_spec(pv(p.author), base_url),
            author_display_spec(pv(p.author)),
            esc_text(relative_time_spec(p.note.created_at, now)),
            cut_html_spec(p.note.content@, 200),
        ),
        None => (
            link,
            base_url + "/img/no-profile.svg"@,
            esc_text(abbrev_spec(spec_note_bech32(parent_id@))),
            Seq::empty(),
            Seq::empty(),
        ),
    }
}

pub open spec fn parent_view(p: ParentNoteInfo) -> (Seq<char>, Seq<char>, Seq<char>, Seq<char>, Seq<char>) {
    (p.link@, p.pfp@, p.name_html@, p.time_html@, p.content_html@)
}

/// The note a note replies to: its reply target, else its thread root, as
/// the store's reading of its tags gives them. `None` when it replies to
/// nothing. `found` is the parent as the store has it.
pub fn get_parent_note_info(
    reply_id: Option<[u8; 32]>,
    root_id: Option<[u8; 32]>,
    found: &Option<AuthoredNote>,
    base_url: &str,
    now: u64,
) -> (res: Option<ParentNoteInfo>)
    ensures
        match (reply_id, root_id) {
            (None, None) => res is None,
            (Some(id), _) | (None, Some(id)) => res is Some && parent_view(res->0)
                == parent_info_spec(id, *found, base_url@, now),
        },
{
    let parent_id = match reply_id {
        Some(id) => id,
        None => match root_id {
            Some(id) => id,
            None => return None,
        },
    };
    let nb = note_bech32(parent_id);
    let mut link = base_url.to_owned();
    link.append("/");
    link.append(nb.as_str());
    match found {
        Some(p) => {
            let rt = format_relative_time(p.note.created_at, now);
            Some(
                ParentNoteInfo {
                    link,
                    pfp: pfp_url_attr(&p.author, base_url),
                    name_html: author_display_html(&p.author),
                    time_html: encode_text(rt.as_str()),
                    content_html: cut_html(p.note.content.as_str(), 200),
                },
            )
        },
        None => {
            let mut pfp = base_url.to_owned();
            pfp.append("/img/no-profile.svg");
            let id_display = abbrev_str(nb.as_str());
            Some(
                ParentNoteInfo {
                    link,
                    pfp,
                    name_html: encode_text(id_display.as_str()),
                    time_html: String::new(),
                    content_html: String::new(),
                },
            )
        },
    }
}

// ---------------------------------------------------------------------
// Direct replies
// ---------------------------------------------------------------------

/// A reply found for a note, with its reply and root targets as the store
/// reads its tags, and its author's stored profile.
#[derive(Debug)]
pub struct ReplyNote {
    pub note: NoteData,
    pub reply_id: Option<[u8; 32]>,
    pub root_id: Option<[u8; 32]>,
    pub author: Option<ProfileInfo>,
}

/// A reply answers `note_id` directly: its reply target is that note, or it
/// has no reply target and its root is that note.
pub open spec fn is_direct_spec(r: ReplyNote, note_id: [u8; 32]) -> bool {
    match r.reply_id {
        Some(id) => id@ == note_id@,
        None => match r.root_id {
            Some(id) => id@ == note_id@,
            None => false,
        },
    }
}

pub open spec fn insert_pos_asc(sorted: Seq<ReplyNote>, t: u64) -> int
    decreases sorted.len(),
{
    if sorted.len() == 0 {
        0
    } else if sorted[0].note.created_at > t {
        0
    } else {
        1 + insert_pos_asc(sorted.drop_first(), t)
    }
}

/// The replies in order of creation, oldest first, keeping the order of
/// equal times (a stable sort).
pub open spec fn sort_by_time(v: Seq<ReplyNote>) -> Seq<ReplyNote>
    decreases v.len(),
{
    if v.len() == 0 {
        Seq::empty()
    } else {
        let s = sort_by_time(v.drop_last());
        let p = insert_pos_asc(s, v.last().note.created_at);
        s.take(p) + seq![v.last()] + s.skip(p)
    }
}

pub open spec fn reply_item_spec(r: ReplyNote, base_url: Seq<char>, now: u64) -> Seq<char> {
    "<a href=\""@ + base_url + "/"@ + unwrap_or(spec_nevent_bech32(r.note.id, None, None, Seq::empty()), Seq::empty()) + "\" class=\"damus-reply\">\n                <img src=\""@ + esc_attr(unwrap_or(non_empty(profile_picture(pv(r.author))), "/img/no-profile.svg"@)) + "\" class=\"damus-reply-avatar\" alt=\"\" />\n                <div class=\"damus-reply-body\">\n                    <div class=\"damus-reply-header\">\n                        <span class=\"damus-reply-author\">"@ + author_display_spec(pv(r.author)) + "</span>\n                        <span class=\"damus-reply-time\">&middot; "@ + esc_text(relative_time_spec(r.note.created_at, now)) + "</span>\n                    </div>\n                    <div class=\"damus-reply-content\">"@ + cut_html_spec(r.note.content@, 300) + "</div>\n                </div>\n            </a>"@
}

pub open spec fn reply_items_spec(v: Seq<ReplyNote>, note_id: [u8; 32], base_url: Seq<char>, now: u64) -> Seq<char>
    decreases v.len(),
{
    if v.len() == 0 {
        Seq::empty()
    } else {
        reply_items_spec(v.drop_last(), note_id, base_url, now) + if is_direct_spec(
            v.last(),
            note_id,
        ) {
            reply_item_spec(v.last(), base_url, now)
        } else {
            Seq::<char>::empty()
        }
    }
}

/// The direct replies section: the replies that answer the note directly,
/// oldest first; nothing when there are none.
pub open spec fn replies_spec(v: Seq<ReplyNote>, note_id: [u8; 32], base_url: Seq<char>, now: u64) -> Seq<char> {
    let items = reply_items_spec(sort_by_time(v), note_id, base_url, now);
    if items.len() == 0 {
        Seq::empty()
    } else {
        "<section class=\"damus-replies\">"@ + items + "</section>"@
    }
}

pub open spec fn picked(v: Seq<ReplyNote>, idx: Seq<usize>) -> Seq<ReplyNote> {
    Seq::new(idx.len(), |k: int| v[idx[k] as int])
}

proof fn lemma_insert_pos_asc_bound(sorted: Seq<ReplyNote>, t: u64)
    ensures
        0 <= insert_pos_asc(sorted, t) <= sorted.len(),
    decreases sorted.len(),
{
    if sorted.len() > 0 && sorted[0].note.created_at <= t {
        lemma_insert_pos_asc_bound(sorted.drop_first(), t);
    }
}

fn sorted_order(v: &Vec<ReplyNote>) -> (idx: Vec<usize>)
    ensures
        forall|k: int| 0 <= k < idx.len() ==> idx@[k] < v.len(),
        picked(v@, idx@) == sort_by_time(v@),
{
    let mut idx: Vec<usize> = Vec::new();
    for i in 0..v.len()
        invariant
            forall|k: int| 0 <= k < idx.len() ==> idx@[k] < i,
            picked(v@, idx@) == sort_by_time(v@.take(i as int)),
    {
        let ghost s = picked(v@, idx@);
        assert(v@.take(i + 1).drop_last() =~= v@.take(i as int));
        assert(v@.take(i + 1).last() == v@[i as int]);
        let t = v[i].note.created_at;
        let mut p: usize = 0;
        assert(s.skip(0) =~= s);
        while p < idx.len() && v[idx[p]].note.created_at <= t
            invariant
                s == picked(v@, idx@),
                forall|k: int| 0 <= k < idx.len() ==> idx@[k] < i,
                i < v.len(),
                p <= idx.len(),
                p + insert_pos_asc(s.skip(p as int), t) == insert_pos_asc(s, t),
            decreases idx.len() - p,
        {
            assert(s.skip(p as int).drop_first() =~= s.skip(p + 1));
            assert(s.skip(p as int)[0] == s[p as int]);
            p = p + 1;
        }
        if p < idx.len() {
            assert(s.skip(p as int)[0] == s[p as int]);
        }
        proof {
            lemma_insert_pos_asc_bound(s, t);
        }
        idx.insert(p, i);
        assert(picked(v@, idx@) =~= s.take(p as int) + seq![v@[i as int]] + s.skip(p as int));
    }
    assert(v@.take(v.len() as int) =~= v@);
    idx
}

#[verifier::rlimit(40)]
fn reply_item(html: &mut String, r: &ReplyNote, base_url: &str, now: u64)
    ensures
        final(html)@ == old(html)@ + reply_item_spec(*r, base_url@, now),
{
    let none: Vec<String> = Vec::new();
    assert(none.deep_view() =~= Seq::<Seq<char>>::empty());
    let reply_id = match nevent_bech32(r.note.id, None, None, &none) {
        Some(b) => b,
        None => String::new(),
    };
    let pic = match &r.author {
        Some(p) => non_empty_of(&p.picture),
        None => None,
    };
    let pfp = match pic {
        Some(u) => encode_double_quoted_attribute(u.as_str()),
        None => encode_double_quoted_attribute("/img/no-profile.svg"),
    };
    let author = author_display_html(&r.author);
    let rt = format_relative_time(r.note.created_at, now);
    let time = encode_text(rt.as_str());
    let content = cut_html(r.note.content.as_str(), 300);
    proof {
        reveal_strlit("");
    }
    html.append("<a href=\"");
    html.append(base_url);
    html.append("/");
    html.append(reply_id.as_str());
    html.append("\" class=\"damus-reply\">\n                <img src=\"");
    html.append(pfp.as_str());
    html.append("\" class=\"damus-reply-avatar\" alt=\"\" />\n                <div class=\"damus-reply-body\">\n                    <div class=\"damus-reply-header\">\n                        <span class=\"damus-reply-author\">");
    html.append(author.as_str());
    html.append("</span>\n                        <span class=\"damus-reply-time\">&middot; ");
    html.append(time.as_str());
    html.append("</span>\n                    </div>\n                    <div class=\"damus-reply-content\">");
    html.append(content.as_str());
    html.append("</div>\n                </div>\n            </a>");
}

/// Builds the direct replies shown below a note. `replies` are the replies
/// the store found for it (kind 1 notes referring to it).
pub fn build_replies_html(replies: &Vec<ReplyNote>, note_id: &[u8; 32], base_url: &str, now: u64) -> (res: String)
    ensures
        res@ == replies_spec(replies@, *note_id, base_url@, now),
{
    let idx = sorted_order(replies);
    let ghost sv = sort_by_time(replies@);
    let mut html = String::new();
    let mut count: usize = 0;
    for k in 0..idx.len()
        invariant
            forall|j: int| 0 <= j < idx.len() ==> idx@[j] < replies.len(),
            picked(replies@, idx@) == sv,
            html@ == reply_items_spec(sv.take(k as int), *note_id, base_url@, now),
            (count == 0) == (html@.len() == 0),
            count <= k,
    {
        assert(sv.take(k + 1).drop_last() =~= sv.take(k as int));
        assert(sv.take(k + 1).last() == replies@[idx@[k as int] as int]);
        let r = &replies[idx[k]];
        let direct = match r.reply_id {
            Some(id) => id_eq(&id, note_id),
            None => match r.root_id {
                Some(id) => id_eq(&id, note_id),
                None => false,
            },
        };
        if direct {
            let ghost before = html@;
            reply_item(&mut html, r, base_url, now);
            proof {
                reveal_strlit("<a href=\"");
            }
            assert(reply_item_spec(*r, base_url@, now).len() > 0);
            count = count + 1;
        }
    }
    assert(sv.take(idx.len() as int) =~= sv);
    if count == 0 {
        return String::new();
    }
    let mut out = String::new();
    out.append("<section class=\"damus-replies\">");
    out.append(html.as_str());
    out.append("</section>");
    out
}


// ---------------------------------------------------------------------
// The note card
// ---------------------------------------------------------------------

/// What the card of a note shows, as the store has it.
#[derive(Debug)]
pub struct NoteCardData {
    pub note: NoteData,
    /// The note's parsed content, when the store has it
    pub blocks: Option<Vec<Block>>,
    /// The author's stored profile
    pub author: Option<ProfileInfo>,
    /// The note's reply target and thread root, as the store reads its tags
    pub reply_id: Option<[u8; 32]>,
    pub root_id: Option<[u8; 32]>,
    /// The note replied to (the reply target, else the root), when stored
    pub parent: Option<AuthoredNote>,
    /// The note's quotes (from `note_quote_refs`) and what they resolved to
    pub quotes: Vec<EmbedItem>,
    /// The note's stored metadata
    pub meta: Option<Vec<MetaEntry>>,
    /// The replies the store found for the note
    pub replies: Vec<ReplyNote>,
}

/// The quotes a note card shows: those of the `q` tags, then inline ones
/// naming an event not already there.
pub fn note_quote_refs(tags: &Vec<Vec<TagItem>>, blocks: &Option<Vec<Block>>) -> (res: Vec<QuoteRef>)
    ensures
        quotes_view(res@) == match blocks {
            Some(b) => merge_targets_spec(quotes_from_tags_spec(tags@), quotes_from_blocks_spec(b@)),
            None => quotes_from_tags_spec(tags@),
        },
{
    let mut refs = extract_quote_refs_from_tags(tags);
    if let Some(b) = blocks {
        let inline = extract_quote_refs_from_content(b);
        merge_quote_refs(&mut refs, &inline, true);
    }
    refs
}

pub open spec fn parent_id_spec(reply_id: Option<[u8; 32]>, root_id: Option<[u8; 32]>) -> Option<[u8; 32]> {
    match reply_id {
        Some(id) => Some(id),
        None => root_id,
    }
}

pub open spec fn card_body_spec(d: NoteCardData) -> Seq<char> {
    match d.blocks {
        Some(b) => content_html_spec(b@),
        None => esc_text(d.note.content@),
    }
}

/// The card of a note whose `nevent` bech32 is `nevent`: a thread layout
/// under the note it replies to, else the standard layout; then its
/// replies.
pub open spec fn note_card_spec(d: NoteCardData, base_url: Seq<char>, nevent: Seq<char>, now: u64) -> Seq<char> {
    let body = card_body_spec(d);
    let npub = spec_npub_bech32(d.note.pubkey@);
    let pfp = pfp_url_attr_spec(pv(d.author), base_url);
    let author = author_display_spec(pv(d.author));
    let handle = author_handle_spec(pv(d.author));
    let ts = decimal(d.note.created_at as nat);
    let quotes = embedded_quotes_spec(d.quotes@, now);
    let pid = parent_id_spec(d.reply_id, d.root_id);
    let stats = stats_spec(meta_view(d.meta), pid is None);
    let replies = replies_spec(d.replies@, d.note.id, base_url, now);
    match pid {
        Some(id) => {
            let p = parent_info_spec(id, d.parent, base_url, now);
            let ptime = if p.3.len() == 0 {
                Seq::empty()
            } else {
                "<span class=\"damus-thread-parent-time\">&middot; "@ + p.3 + "</span>"@
            };
            let pcontent = if p.4.len() == 0 {
                Seq::empty()
            } else {
                "<div class=\"damus-thread-parent-text\">"@ + p.4 + "</div>"@
            };
            "<article class=\"damus-card damus-note damus-thread\">\n                    <div class=\"damus-thread-grid\">\n                        <div class=\"damus-thread-line\"></div>\n                        <a href=\""@ + p.0 + "\" class=\"damus-thread-pfp damus-thread-pfp-parent\">\n                            <img src=\""@ + p.1 + "\" class=\"damus-thread-avatar\" alt=\"\" />\n                        </a>\n                        <a href=\""@ + p.0 + "\" class=\"damus-thread-parent-content\">\n                            <div class=\"damus-thread-parent-meta\">\n                                <span class=\"damus-thread-parent-author\">"@ + p.2 + "</span>\n                                "@ + ptime + "\n                            </div>\n                            "@ + pcontent + "\n                        </a>\n                        <a href=\""@ + base_url + "/"@ + npub + "\" class=\"damus-thread-pfp damus-thread-pfp-reply\">\n                            <img src=\""@ + pfp + "\" class=\"damus-thread-avatar\" alt=\""@ + author + " profile picture\" />\n                        </a>\n                        <div class=\"damus-thread-reply-content\">\n                            <div class=\"damus-thread-reply-meta\">\n                                <a href=\""@ + base_url + "/"@ + npub + "\">\n                                    <span class=\"damus-note-author\">"@ + author + "</span>\n                                    "@ + handle + "\n                                </a>\n                                <a href=\""@ + base_url + "/"@ + nevent + "\">\n                                    <time class=\"damus-note-time\" data-timestamp=\""@ + ts + "\" datetime=\""@ + ts + "\" title=\""@ + ts + "\">"@ + ts + "</time>\n                                </a>\n                            </div>\n                            <div class=\"damus-note-body\">"@ + body + "</div>\n                            "@ + quotes + "\n                            "@ + stats + "\n                        </div>\n                    </div>\n                </article>\n                "@ + replies
        },
        None => "<article class=\"damus-card damus-note\">\n                    <header class=\"damus-note-header\">\n                       <a href=\""@ + base_url + "/"@ + npub + "\">\n                         <img src=\""@ + pfp + "\" class=\"damus-note-avatar\" alt=\""@ + author + " profile picture\" />\n                       </a>\n                       <div>\n                         <a href=\""@ + base_url + "/"@ + npub + "\">\n                           <div class=\"damus-note-author\">"@ + author + "</div>\n                           "@ + handle + "\n                         </a>\n                         <a href=\""@ + base_url + "/"@ + nevent + "\">\n                           <time class=\"damus-note-time\" data-timestamp=\""@ + ts + "\" datetime=\""@ + ts + "\" title=\""@ + ts + "\">"@ + ts + "</time>\n                         </a>\n                       </div>\n                    </header>\n                    <div class=\"damus-note-body\">"@ + body + "</div>\n                    "@ + quotes + "\n                    "@ + stats + "\n                </article>\n                "@ + replies,
    }
}

/// The card of a note with `relays` as the relay hints of its `nevent`
/// link. `None` when that `nevent` cannot be encoded.
pub fn build_note_content_html(d: &NoteCardData, base_url: &str, relays: &Vec<String>, now: u64) -> (res: Option<String>)
    requires
        match d.meta {
            Some(es) => sum_counts(
                stats_fold(es@, parent_id_spec(d.reply_id, d.root_id) is None).3,
            ) <= u32::MAX,
            None => true,
        },
    ensures
        match spec_nevent_bech32(d.note.id, None, None, relays.deep_view()) {
            Some(nv) => res is Some && res->0@ == note_card_spec(*d, base_url@, nv, now),
            None => res is None,
        },
{
    let nev = match nevent_bech32(d.note.id, None, None, relays) {
        Some(n) => n,
        None => return None,
    };
    let nevent = nev.as_str();
    let mut body = String::new();
    match &d.blocks {
        Some(b) => render_note_content(&mut body, b),
        None => body.append(encode_text(d.note.content.as_str()).as_str()),
    }
    let npub = npub_bech32(d.note.pubkey);
    let pfp = pfp_url_attr(&d.author, base_url);
    let author = author_display_html(&d.author);
    let handle = author_handle_html(&d.author);
    let mut ts = String::new();
    push_decimal(&mut ts, d.note.created_at);
    let quotes = build_embedded_quotes_html(&d.quotes, now);
    let parent = get_parent_note_info(d.reply_id, d.root_id, &d.parent, base_url, now);
    let stats = build_note_stats_html(&d.meta, parent.is_none());
    let replies = build_replies_html(&d.replies, &d.note.id, base_url, now);
    let mut out = String::new();
    match &parent {
        Some(p) => {
            let mut ptime = String::new();
            if p.time_html.as_str().unicode_len() > 0 {
                ptime.append("<span class=\"damus-thread-parent-time\">&middot; ");
                ptime.append(p.time_html.as_str());
                ptime.append("</span>");
            }
            let mut pcontent = String::new();
            if p.content_html.as_str().unicode_len() > 0 {
                pcontent.append("<div class=\"damus-thread-parent-text\">");
                pcontent.append(p.content_html.as_str());
                pcontent.append("</div>");
            }
            out.append("<article class=\"damus-card damus-note damus-thread\">\n                    <div class=\"damus-thread-grid\">\n                        <div class=\"damus-thread-line\"></div>\n                        <a href=\"");
            out.append(p.link.as_str());
            out.append("\" class=\"damus-thread-pfp damus-thread-pfp-parent\">\n                            <img src=\"");
            out.append(p.pfp.as_str());
            out.append("\" class=\"damus-thread-avatar\" alt=\"\" />\n                        </a>\n                        <a href=\"");
            out.append(p.link.as_str());
            out.append("\" class=\"damus-thread-parent-content\">\n                            <div class=\"damus-thread-parent-meta\">\n                                <span class=\"damus-thread-parent-author\">");
            out.append(p.name_html.as_str());
            out.append("</span>\n                                ");
            out.append(ptime.as_str());
            out.append("\n                            </div>\n                            ");
            out.append(pcontent.as_str());
            out.append("\n                        </a>\n                        <a href=\"");
            out.append(base_url);
            out.append("/");
            out.append(npub.as_str());
            out.append("\" class=\"damus-thread-pfp damus-thread-pfp-reply\">\n                            <img src=\"");
            out.append(pfp.as_str());
            out.append("\" class=\"damus-thread-avatar\" alt=\"");
            out.append(author.as_str());
            out.append(" profile picture\" />\n                        </a>\n                        <div class=\"damus-thread-reply-content\">\n                            <div class=\"damus-thread-reply-meta\">\n                                <a href=\"");
            out.append(base_url);
            out.append("/");
            out.append(npub.as_str());
            out.append("\">\n                                    <span class=\"damus-note-author\">");
            out.append(author.as_str());
            out.append("</span>\n                                    ");
            out.append(handle.as_str());
            out.append("\n                                </a>\n                                <a href=\"");
            out.append(base_url);
            out.append("/");
            out.append(nevent);
            out.append("\">\n                                    <time class=\"damus-note-time\" data-timestamp=\"");
            out.append(ts.as_str());
            out.append("\" datetime=\"");
            out.append(ts.as_str());
            out.append("\" title=\"");
            out.append(ts.as_str());
            out.append("\">");
            out.append(ts.as_str());
            out.append("</time>\n                                </a>\n                            </div>\n                            <div class=\"damus-note-body\">");
            out.append(body.as_str());
            out.append("</div>\n                            ");
            out.append(quotes.as_str());
            out.append("\n                            ");
            out.append(stats.as_str());
            out.append("\n                        </div>\n                    </div>\n                </article>\n                ");
            out.append(replies.as_str());
        },
        None => {
            out.append("<article class=\"damus-card damus-note\">\n                    <header class=\"damus-note-header\">\n                       <a href=\"");
            out.append(base_url);
            out.append("/");
            out.append(npub.as_str());
            out.append("\">\n                         <img src=\"");
            out.append(pfp.as_str());
            out.append("\" class=\"damus-note-avatar\" alt=\"");
            out.append(author.as_str());
            out.append(" profile picture\" />\n                       </a>\n                       <div>\n                         <a href=\"");
            out.append(base_url);
            out.append("/");
            out.append(npub.as_str());
            out.append("\">\n                           <div class=\"damus-note-author\">");
            out.append(author.as_str());
            out.append("</div>\n                           ");
            out.append(handle.as_str());
            out.append("\n                         </a>\n                         <a href=\"");
            out.append(base_url);
            out.append("/");
            out.append(nevent);
            out.append("\">\n                           <time class=\"damus-note-time\" data-timestamp=\"");
            out.append(ts.as_str());
            out.append("\" datetime=\"");
            out.append(ts.as_str());
            out.append("\" title=\"");
            out.append(ts.as_str());
            out.append("\">");
            out.append(ts.as_str());
            out.append("</time>\n                         </a>\n                       </div>\n                    </header>\n                    <div class=\"damus-note-body\">");
            out.append(body.as_str());
            out.append("</div>\n                    ");
            out.append(quotes.as_str());
            out.append("\n                    ");
            out.append(stats.as_str());
            out.append("\n                </article>\n                ");
            out.append(replies.as_str());
        },
    }
    Some(out)
}

} // verus!
