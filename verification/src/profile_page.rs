//! The profile page: names, about text, profile links, relay list and
//! recent notes of an author.
use vstd::prelude::*;
use crate::text::{trim, trim_seq, decimal, push_decimal, starts_with, has_prefix};
use crate::escape::{encode_text, encode_double_quoted_attribute, esc_text, esc_attr};
use crate::nip19::{Nip19Ref, Nip19View, to_bech32, bech32_spec, nip19_relays, relays_of};
use crate::profile::{ProfileInfo, ProfileView, pv, unwrap_or, trimmed_non_empty, trimmed_non_empty_of};
use crate::format::{replace_char, replace_char_spec};
use crate::note::NoteData;
use crate::relays::{RelayEntry, entries_view, relay_entries_from_tags, relay_list_spec, latest_index};
use crate::notecard::{NoteCardData, build_note_content_html, note_card_spec, parent_id_spec};
use crate::stats::{sum_counts, stats_fold};
use crate::nip19::spec_nevent_bech32;
use crate::pages::{LOCAL_TIME_SCRIPT, DAMUS_PLATFORM_SCRIPT};

verus! {

pub const ICON_KEY_CIRCLE: &'static str = "<svg viewBox=\"0 0 18 18\" fill=\"none\" xmlns=\"http://www.w3.org/2000/svg\"><path d=\"M11.3058 6.37751C11.4643 7.01298 11.0775 7.65657 10.4421 7.81501C9.80661 7.97345 9.16302 7.58674 9.00458 6.95127C8.84614 6.3158 9.23285 5.67221 9.86831 5.51377C10.5038 5.35533 11.1474 5.74204 11.3058 6.37751Z\" fill=\"currentColor\"/><path fill-rule=\"evenodd\" clip-rule=\"evenodd\" d=\"M9 18C13.9706 18 18 13.9706 18 9C18 4.02944 13.9706 0 9 0C4.02944 0 0 4.02944 0 9C0 13.9706 4.02944 18 9 18ZM10.98 10.0541C12.8102 9.59778 13.9381 7.80131 13.4994 6.04155C13.0606 4.28178 11.2213 3.22513 9.39116 3.68144C7.56101 4.13774 6.43306 5.93422 6.87182 7.69398C6.97647 8.11372 7.1608 8.49345 7.40569 8.8222L5.3739 12.0582C5.30459 12.1686 5.28324 12.3025 5.31477 12.4289L5.73708 14.1228C5.7691 14.2511 5.89912 14.3293 6.02751 14.2973L7.81697 13.8511C7.93712 13.8211 8.04101 13.7458 8.10686 13.641L10.295 10.1559C10.5216 10.1446 10.7509 10.1112 10.98 10.0541Z\" fill=\"currentColor\"/></svg>";

pub const ICON_CONTACT_CIRCLE: &'static str = "<svg viewBox=\"0 0 18 18\" fill=\"none\" xmlns=\"http://www.w3.org/2000/svg\"><path fill-rule=\"evenodd\" clip-rule=\"evenodd\" d=\"M9 18C13.9706 18 18 13.9706 18 9C18 4.02944 13.9706 0 9 0C4.02944 0 0 4.02944 0 9C0 13.9706 4.02944 18 9 18ZM11.6667 6.66667C11.6667 8.13943 10.4728 9.33333 9.00004 9.33333C7.52728 9.33333 6.33337 8.13943 6.33337 6.66667C6.33337 5.19391 7.52728 4 9.00004 4C10.4728 4 11.6667 5.19391 11.6667 6.66667ZM13.6667 12.3333C13.6667 13.2538 11.5774 14 9.00004 14C6.42271 14 4.33337 13.2538 4.33337 12.3333C4.33337 11.4129 6.42271 10.6667 9.00004 10.6667C11.5774 10.6667 13.6667 11.4129 13.6667 12.3333Z\" fill=\"currentColor\"/></svg>";

pub const ICON_LINK_CIRCLE: &'static str = "<svg viewBox=\"0 0 18 18\" fill=\"none\" xmlns=\"http://www.w3.org/2000/svg\"><path fill-rule=\"evenodd\" clip-rule=\"evenodd\" d=\"M9 18C13.9706 18 18 13.9706 18 9C18 4.02944 13.9706 0 9 0C4.02944 0 0 4.02944 0 9C0 13.9706 4.02944 18 9 18ZM10.5074 5.12274C10.7369 4.89317 11.1091 4.89317 11.3387 5.12274L12.8772 6.6612C13.1067 6.89077 13.1067 7.26298 12.8772 7.49256L10.9541 9.41563C10.7588 9.6109 10.7588 9.92748 10.9541 10.1227C11.1494 10.318 11.4659 10.318 11.6612 10.1227L13.5843 8.19966C14.2044 7.57957 14.2044 6.57419 13.5843 5.95409L12.0458 4.41563C11.4257 3.79554 10.4203 3.79554 9.80025 4.41563L7.87718 6.33871C7.68191 6.53397 7.68191 6.85055 7.87718 7.04582C8.07244 7.24108 8.38902 7.24108 8.58428 7.04582L10.5074 5.12274ZM11.0843 7.62274C11.2795 7.42748 11.2795 7.1109 11.0843 6.91563C10.889 6.72037 10.5724 6.72037 10.3772 6.91563L7.10794 10.1849C6.91268 10.3801 6.91268 10.6967 7.10794 10.892C7.30321 11.0872 7.61979 11.0872 7.81505 10.892L11.0843 7.62274ZM7.04582 8.5843C7.24108 8.38904 7.24108 8.07246 7.04582 7.8772C6.85055 7.68194 6.53397 7.68194 6.33871 7.8772L4.41563 9.80027C3.79554 10.4204 3.79554 11.4257 4.41563 12.0458L5.9541 13.5843C6.57419 14.2044 7.57957 14.2044 8.19966 13.5843L10.1227 11.6612C10.318 11.466 10.318 11.1494 10.1227 10.9541C9.92748 10.7589 9.6109 10.7589 9.41563 10.9541L7.49256 12.8772C7.26299 13.1068 6.89077 13.1068 6.6612 12.8772L5.12274 11.3387C4.89317 11.1092 4.89317 10.737 5.12274 10.5074L7.04582 8.5843Z\" fill=\"currentColor\"/></svg>";

pub const ICON_BITCOIN: &'static str = "<svg viewBox=\"0 0 18 18\" fill=\"none\" xmlns=\"http://www.w3.org/2000/svg\"><path d=\"M8.28295 7.96658L8.23361 7.95179L8.76146 5.8347C8.81784 5.84928 8.88987 5.86543 8.97324 5.88412C9.67913 6.04237 11.1984 6.38297 10.9233 7.49805C10.6279 8.67114 8.87435 8.14427 8.28295 7.96658Z\" fill=\"currentColor\"/><path d=\"M7.3698 11.4046L7.4555 11.43C8.18407 11.6467 10.2516 12.2615 10.532 11.0972C10.8209 9.97593 8.96224 9.53925 8.13013 9.34375C8.0389 9.32232 7.96002 9.30378 7.89765 9.28756L7.3698 11.4046Z\" fill=\"currentColor\"/><path fill-rule=\"evenodd\" clip-rule=\"evenodd\" d=\"M9 18C13.9706 18 18 13.9706 18 9C18 4.02944 13.9706 0 9 0C4.02944 0 0 4.02944 0 9C0 13.9706 4.02944 18 9 18ZM12.8732 7.61593C13.0794 6.31428 12.1803 5.63589 10.9322 5.17799L11.3709 3.40745L10.3814 3.16221L9.95392 4.88751C9.88913 4.87105 9.82482 4.85441 9.76074 4.83784C9.56538 4.78731 9.3721 4.73731 9.17436 4.69431L9.6018 2.96901L8.58479 2.71696L8.15735 4.44226L6.13863 3.94193L5.847 5.12223C5.847 5.12223 6.59551 5.285 6.56824 5.30098C6.96889 5.40897 7.03686 5.69278 7.01489 5.90971L6.50629 7.91664L5.80746 10.7404C5.75255 10.8744 5.61847 11.0659 5.34426 10.9993C5.35573 11.012 4.61643 10.8087 4.61643 10.8087L4.12964 12.0541L6.08834 12.5875L5.65196 14.3489L6.63523 14.5926L7.07161 12.8312C7.22991 12.8767 7.38989 12.9139 7.54471 12.95C7.66051 12.9769 7.77355 13.0032 7.8807 13.0318L7.44432 14.7931L8.42939 15.0373L8.86577 13.2759C10.5611 13.5993 11.841 13.448 12.4129 11.7791C12.8726 10.4484 12.4427 9.68975 11.5496 9.18998C12.2207 9.02654 12.7174 8.56346 12.8732 7.61593Z\" fill=\"currentColor\"/></svg>";


pub open spec fn field_of(p: Option<ProfileView>, f: int) -> Option<Seq<char>> {
    match p {
        Some(v) => if f == 0 {
            v.name
        } else if f == 1 {
            v.display_name
        } else if f == 2 {
            v.about
        } else if f == 3 {
            v.picture
        } else if f == 4 {
            v.nip05
        } else if f == 5 {
            v.website
        } else {
            v.lud16
        },
        None => None,
    }
}

/// Username, display name, about text and picture URL of a profile page:
/// each trimmed; the username defaults to `nostrich`, the display name to
/// the username, the about text to nothing, the picture to the placeholder.
pub open spec fn profile_names_spec(p: Option<ProfileView>) -> (Seq<char>, Seq<char>, Seq<char>, Seq<char>) {
    let username = unwrap_or(trimmed_non_empty(field_of(p, 0)), "nostrich"@);
    (
        username,
        unwrap_or(trimmed_non_empty(field_of(p, 1)), username),
        unwrap_or(trimmed_non_empty(field_of(p, 2)), Seq::empty()),
        unwrap_or(trimmed_non_empty(field_of(p, 3)), "https://damus.io/img/no-profile.svg"@),
    )
}

fn field_trimmed(p: &Option<ProfileInfo>, f: u8) -> (res: Option<String>)
    requires
        f <= 6,
    ensures
        opt_view_s(res) == trimmed_non_empty(field_of(pv(*p), f as int)),
{
    match p {
        Some(v) => {
            let o = if f == 0 {
                &v.name
            } else if f == 1 {
                &v.display_name
            } else if f == 2 {
                &v.about
            } else if f == 3 {
                &v.picture
            } else if f == 4 {
                &v.nip05
            } else if f == 5 {
                &v.website
            } else {
                &v.lud16
            };
            trimmed_non_empty_of(o)
        },
        None => None,
    }
}

pub open spec fn opt_view_s(o: Option<String>) -> Option<Seq<char>> {
    crate::nip19::opt_view(o)
}

fn or_default(o: Option<String>, d: String) -> (res: String)
    ensures
        res@ == unwrap_or(opt_view_s(o), d@),
{
    match o {
        Some(s) => s,
        None => d,
    }
}

fn profile_names(p: &Option<ProfileInfo>) -> (res: (String, String, String, String))
    ensures
        (res.0@, res.1@, res.2@, res.3@) == profile_names_spec(pv(*p)),
{
    let username = or_default(field_trimmed(p, 0), "nostrich".to_owned());
    let display = or_default(field_trimmed(p, 1), username.clone());
    let empty = String::new();
    assert(empty@ =~= Seq::<char>::empty());
    let about = or_default(field_trimmed(p, 2), empty);
    let pic = or_default(field_trimmed(p, 3), "https://damus.io/img/no-profile.svg".to_owned());
    (username, display, about, pic)
}

// ---------------------------------------------------------------------
// Profile links
// ---------------------------------------------------------------------

pub open spec fn website_href(w: Seq<char>) -> Seq<char> {
    if has_prefix(w, "http://"@) || has_prefix(w, "https://"@) {
        w
    } else {
        "https://"@ + w
    }
}

pub open spec fn npub_row_spec(bech32: Seq<char>) -> Seq<char> {
    "<div class=\"damus-profile-meta-row damus-profile-meta-row--npub\"><span class=\"damus-meta-icon\" aria-hidden=\"true\">"@
        + ICON_KEY_CIRCLE@ + "</span><a href=\""@ + esc_attr("nostr:"@ + bech32) + "\">"@ + bech32
        + "</a><span class=\"damus-sr-only\">npub</span></div>"@
}

pub open spec fn nip05_row_spec(p: Option<ProfileView>) -> Seq<char> {
    match trimmed_non_empty(field_of(p, 4)) {
        Some(v) => "<div class=\"damus-profile-meta-row damus-profile-meta-row--nip05\"><span class=\"damus-meta-icon\" aria-hidden=\"true\">"@
            + ICON_CONTACT_CIRCLE@ + "</span><span>"@ + esc_text(v)
            + "</span><span class=\"damus-sr-only\">nip05</span></div>"@,
        None => Seq::<char>::empty(),
    }
}

pub open spec fn website_row_spec(p: Option<ProfileView>) -> Seq<char> {
    match trimmed_non_empty(field_of(p, 5)) {
        Some(v) => "<div class=\"damus-profile-meta-row damus-profile-meta-row--website\"><span class=\"damus-meta-icon\" aria-hidden=\"true\">"@
            + ICON_LINK_CIRCLE@ + "</span><a href=\""@ + esc_attr(website_href(v))
            + "\" target=\"_blank\" rel=\"noopener noreferrer\">"@ + esc_text(v)
            + "</a><span class=\"damus-sr-only\">website</span></div>"@,
        None => Seq::<char>::empty(),
    }
}

pub open spec fn lud16_row_spec(p: Option<ProfileView>) -> Seq<char> {
    match trimmed_non_empty(field_of(p, 6)) {
        Some(v) => "<div class=\"damus-profile-meta-row damus-profile-meta-row--lnurl\"><span class=\"damus-meta-icon\" aria-hidden=\"true\">"@
            + ICON_BITCOIN@ + "</span><span>"@ + esc_text(v)
            + "</span><span class=\"damus-sr-only\">lnurl</span></div>"@,
        None => Seq::<char>::empty(),
    }
}

/// The rows of profile links: the `nostr:` link of the profile, then its
/// NIP-05 address, website and lightning address when set.
pub open spec fn meta_rows_spec(p: Option<ProfileView>, bech32: Seq<char>) -> Seq<char> {
    npub_row_spec(bech32) + nip05_row_spec(p) + website_row_spec(p) + lud16_row_spec(p)
}

fn npub_row(rows: &mut String, bech32: &str)
    ensures
        final(rows)@ == old(rows)@ + npub_row_spec(bech32@),
{
    rows.append("<div class=\"damus-profile-meta-row damus-profile-meta-row--npub\"><span class=\"damus-meta-icon\" aria-hidden=\"true\">");
    rows.append(ICON_KEY_CIRCLE);
    rows.append("</span><a href=\"");
    let mut href = String::new();
    href.append("nostr:");
    href.append(bech32);
    let href_attr = encode_double_quoted_attribute(href.as_str());
    rows.append(href_attr.as_str());
    rows.append("\">");
    rows.append(bech32);
    rows.append("</a><span class=\"damus-sr-only\">npub</span></div>");
}

fn nip05_row(rows: &mut String, p: &Option<ProfileInfo>)
    ensures
        final(rows)@ == old(rows)@ + nip05_row_spec(pv(*p)),
{
    proof {
        reveal_strlit("");
    }
    if let Some(v) = field_trimmed(p, 4) {
        rows.append("<div class=\"damus-profile-meta-row damus-profile-meta-row--nip05\"><span class=\"damus-meta-icon\" aria-hidden=\"true\">");
        rows.append(ICON_CONTACT_CIRCLE);
        rows.append("</span><span>");
        let e = encode_text(v.as_str());
        rows.append(e.as_str());
        rows.append("</span><span class=\"damus-sr-only\">nip05</span></div>");
    }
}

fn website_row(rows: &mut String, p: &Option<ProfileInfo>)
    ensures
        final(rows)@ == old(rows)@ + website_row_spec(pv(*p)),
{
    if let Some(v) = field_trimmed(p, 5) {
        let href = if starts_with(v.as_str(), "http://") || starts_with(v.as_str(), "https://") {
            v.clone()
        } else {
            let mut h = String::new();
            h.append("https://");
            h.append(v.as_str());
            h
        };
        rows.append("<div class=\"damus-profile-meta-row damus-profile-meta-row--website\"><span class=\"damus-meta-icon\" aria-hidden=\"true\">");
        rows.append(ICON_LINK_CIRCLE);
        rows.append("</span><a href=\"");
        let a = encode_double_quoted_attribute(href.as_str());
        rows.append(a.as_str());
        rows.append("\" target=\"_blank\" rel=\"noopener noreferrer\">");
        let e = encode_text(v.as_str());
        rows.append(e.as_str());
        rows.append("</a><span class=\"damus-sr-only\">website</span></div>");
    }
}

fn lud16_row(rows: &mut String, p: &Option<ProfileInfo>)
    ensures
        final(rows)@ == old(rows)@ + lud16_row_spec(pv(*p)),
{
    if let Some(v) = field_trimmed(p, 6) {
        rows.append("<div class=\"damus-profile-meta-row damus-profile-meta-row--lnurl\"><span class=\"damus-meta-icon\" aria-hidden=\"true\">");
        rows.append(ICON_BITCOIN);
        rows.append("</span><span>");
        let e = encode_text(v.as_str());
        rows.append(e.as_str());
        rows.append("</span><span class=\"damus-sr-only\">lnurl</span></div>");
    }
}

fn meta_rows(p: &Option<ProfileInfo>, bech32: &str) -> (res: String)
    ensures
        res@ == meta_rows_spec(pv(*p), bech32@),
{
    let mut rows = String::new();
    npub_row(&mut rows, bech32);
    nip05_row(&mut rows, p);
    website_row(&mut rows, p);
    lud16_row(&mut rows, p);
    rows
}

// ---------------------------------------------------------------------
// Relay list
// ---------------------------------------------------------------------

pub open spec fn role_text(read: bool, write: bool) -> Seq<char> {
    if read && write {
        "read & write"@
    } else if read {
        "read"@
    } else if write {
        "write"@
    } else {
        "unspecified"@
    }
}

pub open spec fn relay_items_spec(entries: Seq<(Seq<char>, bool, bool)>) -> Seq<char>
    decreases entries.len(),
{
    if entries.len() == 0 {
        Seq::empty()
    } else {
        let e = entries.last();
        relay_items_spec(entries.drop_last()) + "<li>"@ + esc_text(e.0)
            + "<span class=\"damus-relay-role\"> – "@ + esc_text(role_text(e.1, e.2)) + "</span></li>"@
    }
}

/// The relay list section: each relay with its use, or a note that none is
/// published.
pub open spec fn relay_section_spec(entries: Seq<(Seq<char>, bool, bool)>) -> Seq<char> {
    if entries.len() == 0 {
        "<div class=\"damus-relays muted\">No relay list published yet.</div>"@
    } else {
        "<details class=\"damus-relays\">\n                <summary>"@ + esc_text("Relays ("@ + decimal(entries.len() as nat) + ")"@) + "</summary>\n                <ul class=\"damus-relay-list\">\n                    "@ + relay_items_spec(entries) + "\n                </ul>\n            </details>"@
    }
}

/// The position of the latest note: the last one among equal times.
pub open spec fn latest_pos(notes: Seq<NoteData>) -> int
    decreases notes.len(),
{
    if notes.len() <= 1 {
        0
    } else {
        let p = latest_pos(notes.drop_last());
        if notes.last().created_at >= notes[p].created_at {
            notes.len() - 1
        } else {
            p
        }
    }
}

proof fn lemma_latest_pos_bound(notes: Seq<NoteData>)
    ensures
        notes.len() > 0 ==> 0 <= latest_pos(notes) < notes.len(),
    decreases notes.len(),
{
    if notes.len() > 1 {
        lemma_latest_pos_bound(notes.drop_last());
    }
}

/// The relay list of the latest relay-list note; none when there is none.
pub open spec fn latest_list_spec(notes: Seq<NoteData>) -> Seq<(Seq<char>, bool, bool)> {
    if notes.len() == 0 {
        Seq::empty()
    } else {
        relay_list_spec(notes[latest_pos(notes)].tags@)
    }
}

/// The latest note is one whose time no other note exceeds, and the last
/// of those that share its time.
proof fn lemma_latest_pos_max(notes: Seq<NoteData>)
    requires
        notes.len() > 0,
    ensures
        0 <= latest_pos(notes) < notes.len(),
        forall|j: int| 0 <= j < notes.len() ==> #[trigger] notes[j].created_at <= notes[latest_pos(notes)].created_at,
        forall|j: int| latest_pos(notes) < j < notes.len() ==> #[trigger] notes[j].created_at < notes[latest_pos(notes)].created_at,
    decreases notes.len(),
{
    if notes.len() > 1 {
        let front = notes.drop_last();
        lemma_latest_pos_max(front);
        let p = latest_pos(front);
        assert(front[p] == notes[p]);
        assert forall|j: int| 0 <= j < notes.len() - 1 implies #[trigger] notes[j].created_at <= notes[p].created_at by {
            assert(front[j] == notes[j]);
        }
        assert forall|j: int| p < j < notes.len() - 1 implies #[trigger] notes[j].created_at < notes[p].created_at by {
            assert(front[j] == notes[j]);
        }
    }
}

/// The relay list shown is that of a relay-list note published no earlier
/// than any other given one (the last given among those published at the
/// same time), and none when no note is given.
pub proof fn lemma_latest_relay_list_is_newest(notes: Seq<NoteData>)
    ensures
        notes.len() == 0 ==> latest_list_spec(notes).len() == 0,
        notes.len() > 0 ==> exists|p: int|
            0 <= p < notes.len() && latest_list_spec(notes) == relay_list_spec(notes[p].tags@)
                && (forall|j: int| 0 <= j < notes.len() ==> #[trigger] notes[j].created_at <= notes[p].created_at)
                && (forall|j: int| p < j < notes.len() ==> #[trigger] notes[j].created_at < notes[p].created_at),
{
    if notes.len() > 0 {
        lemma_latest_pos_max(notes);
        let p = latest_pos(notes);
        assert(latest_list_spec(notes) == relay_list_spec(notes[p].tags@));
    }
}

/// The relay list of the latest of an author's relay-list notes.
pub fn latest_relay_list(notes: &Vec<NoteData>) -> (res: Vec<RelayEntry>)
    ensures
        entries_view(res@) == latest_list_spec(notes@),
{
    if notes.len() == 0 {
        let v: Vec<RelayEntry> = Vec::new();
        assert(entries_view(v@) =~= Seq::<(Seq<char>, bool, bool)>::empty());
        return v;
    }
    let mut best: usize = 0;
    let mut k: usize = 1;
    while k < notes.len()
        invariant
            1 <= k <= notes.len(),
            best < k,
            best == latest_pos(notes@.take(k as int)),
        decreases notes.len() - k,
    {
        assert(notes@.take(k + 1).drop_last() =~= notes@.take(k as int));
        proof {
            lemma_latest_pos_bound(notes@.take(k as int));
        }
        assert(notes@.take(k as int)[best as int] == notes@[best as int]);
        if notes[k].created_at >= notes[best].created_at {
            best = k;
        }
        k = k + 1;
    }
    assert(notes@.take(notes.len() as int) =~= notes@);
    relay_entries_from_tags(&notes[best].tags)
}

fn relay_section(entries: &Vec<RelayEntry>) -> (res: String)
    ensures
        res@ == relay_section_spec(entries_view(entries@)),
{
    let ghost ev = entries_view(entries@);
    if entries.len() == 0 {
        return "<div class=\"damus-relays muted\">No relay list published yet.</div>".to_owned();
    }
    let mut label = String::new();
    label.append("Relays (");
    push_decimal(&mut label, entries.len() as u64);
    label.append(")");
    let count_html = encode_text(label.as_str());
    let mut items = String::new();
    for i in 0..entries.len()
        invariant
            ev == entries_view(entries@),
            items@ == relay_items_spec(ev.take(i as int)),
    {
        assert(ev.take(i + 1).drop_last() =~= ev.take(i as int));
        let e = &entries[i];
        items.append("<li>");
        let u = encode_text(e.url.as_str());
        items.append(u.as_str());
        items.append("<span class=\"damus-relay-role\"> – ");
        let role = if e.read && e.write {
            "read & write"
        } else if e.read {
            "read"
        } else if e.write {
            "write"
        } else {
            "unspecified"
        };
        let r = encode_text(role);
        items.append(r.as_str());
        items.append("</span></li>");
    }
    assert(ev.take(entries.len() as int) =~= ev);
    let mut out = String::new();
    out.append("<details class=\"damus-relays\">\n                <summary>");
    out.append(count_html.as_str());
    out.append("</summary>\n                <ul class=\"damus-relay-list\">\n                    ");
    out.append(items.as_str());
    out.append("\n                </ul>\n            </details>");
    out
}


// ---------------------------------------------------------------------
// Recent notes
// ---------------------------------------------------------------------

pub open spec fn ins_pos_keys(keys: Seq<u64>, order: Seq<int>, t: u64) -> int
    decreases order.len(),
{
    if order.len() == 0 {
        0
    } else if keys[order[0]] > t {
        0
    } else {
        1 + ins_pos_keys(keys, order.drop_first(), t)
    }
}

/// The positions `0..n` ordered by their keys, smallest first, equal keys
/// in position order (a stable sort).
pub open spec fn sort_idx(keys: Seq<u64>, n: nat) -> Seq<int>
    decreases n,
{
    if n == 0 {
        Seq::empty()
    } else {
        let o = sort_idx(keys, (n - 1) as nat);
        let p = ins_pos_keys(keys, o, keys[n - 1]);
        o.take(p) + seq![n - 1] + o.skip(p)
    }
}

pub open spec fn card_keys(v: Seq<NoteCardData>) -> Seq<u64> {
    v.map_values(|c: NoteCardData| c.note.created_at)
}

/// The notes newest first: sorted oldest first, then reversed.
pub open spec fn newest_first(v: Seq<NoteCardData>) -> Seq<int> {
    sort_idx(card_keys(v), v.len()).reverse()
}

pub open spec fn card_bound(c: NoteCardData) -> bool {
    match c.meta {
        Some(es) => sum_counts(stats_fold(es@, parent_id_spec(c.reply_id, c.root_id) is None).3)
            <= u32::MAX,
        None => true,
    }
}

/// The cards of the notes at `order`, in that order; `None` when the
/// `nevent` of one cannot be encoded.
pub open spec fn cards_spec(
    v: Seq<NoteCardData>,
    order: Seq<int>,
    relays: Seq<Seq<char>>,
    base_url: Seq<char>,
    now: u64,
) -> Option<Seq<char>>
    decreases order.len(),
{
    if order.len() == 0 {
        Some(Seq::empty())
    } else {
        match cards_spec(v, order.drop_last(), relays, base_url, now) {
            None => None,
            Some(acc) => {
                let c = v[order.last()];
                match spec_nevent_bech32(c.note.id, None, None, relays) {
                    None => None,
                    Some(nv) => Some(acc + note_card_spec(c, base_url, nv, now)),
                }
            },
        }
    }
}

pub open spec fn min_limit(n: nat) -> int {
    if n < 12 {
        n as int
    } else {
        12
    }
}

/// The recent notes section: nothing when the store could not be asked, a
/// note when there are none, else the newest notes' cards.
pub open spec fn recent_spec(
    recent: Option<Seq<NoteCardData>>,
    relays: Seq<Seq<char>>,
    base_url: Seq<char>,
    now: u64,
) -> Option<Seq<char>> {
    match recent {
        None => Some(Seq::empty()),
        Some(v) => if v.len() == 0 {
            Some(
                "<section class=\"damus-section\"><h2 class=\"damus-section-title\">Recent Notes</h2><div class=\"damus-card\"><p class=\"damus-supporting muted\">No recent notes yet.</p></div></section>"@,
            )
        } else {
            match cards_spec(v, newest_first(v).take(min_limit(v.len())), relays, base_url, now) {
                None => None,
                Some(c) => Some(
                    "<section class=\"damus-section\"><h2 class=\"damus-section-title\">Recent Notes</h2>"@
                        + c + "</section>"@,
                ),
            }
        },
    }
}

proof fn lemma_ins_pos_keys_bound(keys: Seq<u64>, order: Seq<int>, t: u64)
    ensures
        0 <= ins_pos_keys(keys, order, t) <= order.len(),
    decreases order.len(),
{
    if order.len() > 0 && keys[order[0]] <= t {
        lemma_ins_pos_keys_bound(keys, order.drop_first(), t);
    }
}

pub open spec fn as_ints(v: Seq<usize>) -> Seq<int> {
    v.map_values(|k: usize| k as int)
}

fn newest_order(v: &Vec<NoteCardData>) -> (res: Vec<usize>)
    ensures
        as_ints(res@) == newest_first(v@),
        res.len() == v.len(),
        forall|k: int| 0 <= k < res.len() ==> res@[k] < v.len(),
{
    let ghost keys = card_keys(v@);
    let mut idx: Vec<usize> = Vec::new();
    for i in 0..v.len()
        invariant
            keys == card_keys(v@),
            forall|k: int| 0 <= k < idx.len() ==> idx@[k] < i,
            as_ints(idx@) == sort_idx(keys, i as nat),
    {
        let ghost o = as_ints(idx@);
        let t = v[i].note.created_at;
        assert(keys[i as int] == t);
        let mut p: usize = 0;
        assert(o.skip(0) =~= o);
        while p < idx.len() && v[idx[p]].note.created_at <= t
            invariant
                keys == card_keys(v@),
                o == as_ints(idx@),
                forall|k: int| 0 <= k < idx.len() ==> idx@[k] < i,
                i < v.len(),
                p <= idx.len(),
                p + ins_pos_keys(keys, o.skip(p as int), t) == ins_pos_keys(keys, o, t),
            decreases idx.len() - p,
        {
            assert(o.skip(p as int).drop_first() =~= o.skip(p + 1));
            assert(o.skip(p as int)[0] == idx@[p as int] as int);
            assert(keys[idx@[p as int] as int] == v@[idx@[p as int] as int].note.created_at);
            p = p + 1;
        }
        if p < idx.len() {
            assert(o.skip(p as int)[0] == idx@[p as int] as int);
            assert(keys[idx@[p as int] as int] == v@[idx@[p as int] as int].note.created_at);
        }
        proof {
            lemma_ins_pos_keys_bound(keys, o, t);
        }
        idx.insert(p, i);
        assert(as_ints(idx@) =~= o.take(p as int) + seq![i as int] + o.skip(p as int));
    }
    let ghost sorted = as_ints(idx@);
    let mut out: Vec<usize> = Vec::new();
    let mut k: usize = idx.len();
    while k > 0
        invariant
            k <= idx.len(),
            sorted == as_ints(idx@),
            forall|j: int| 0 <= j < idx.len() ==> idx@[j] < v.len(),
            forall|j: int| 0 <= j < out.len() ==> out@[j] < v.len(),
            as_ints(out@) =~= sorted.reverse().take(idx.len() - k),
        decreases k,
    {
        k = k - 1;
        let ghost before = as_ints(out@);
        assert(sorted.reverse()[(idx.len() - k - 1) as int] == sorted[k as int]);
        out.push(idx[k]);
        assert(as_ints(out@) =~= before.push(sorted[k as int]));
        assert(sorted.reverse().take(idx.len() - k) =~= sorted.reverse().take(idx.len() - k - 1).push(sorted[k as int]));
    }
    assert(sorted.reverse().take(idx.len() as int) =~= sorted.reverse());
    proof {
        lemma_sort_idx_len(card_keys(v@), v.len() as nat);
    }
    out
}

proof fn lemma_sort_idx_len(keys: Seq<u64>, n: nat)
    ensures
        sort_idx(keys, n).len() == n,
    decreases n,
{
    if n > 0 {
        lemma_sort_idx_len(keys, (n - 1) as nat);
        lemma_ins_pos_keys_bound(keys, sort_idx(keys, (n - 1) as nat), keys[n - 1]);
    }
}

proof fn lemma_cards_none(
    v: Seq<NoteCardData>,
    order: Seq<int>,
    relays: Seq<Seq<char>>,
    base_url: Seq<char>,
    now: u64,
    j: int,
)
    requires
        0 <= j <= order.len(),
        cards_spec(v, order.take(j), relays, base_url, now) is None,
    ensures
        cards_spec(v, order, relays, base_url, now) is None,
    decreases order.len() - j,
{
    if j < order.len() {
        assert(order.take(j + 1).drop_last() =~= order.take(j));
        lemma_cards_none(v, order, relays, base_url, now, j + 1);
    } else {
        assert(order.take(j) =~= order);
    }
}

#[verifier::rlimit(50)]
fn recent_notes_html(
    recent: &Option<Vec<NoteCardData>>,
    relays: &Vec<String>,
    base_url: &str,
    now: u64,
) -> (res: Option<String>)
    requires
        match recent {
            Some(v) => forall|k: int| 0 <= k < v.len() ==> card_bound(#[trigger] v@[k]),
            None => true,
        },
    ensures
        opt_view_s(res) == recent_spec(
            match recent {
                Some(v) => Some(v@),
                None => None,
            },
            relays.deep_view(),
            base_url@,
            now,
        ),
{
    let v = match recent {
        Some(v) => v,
        None => {
            let e = String::new();
            assert(e@ =~= Seq::<char>::empty());
            return Some(e);
        },
    };
    if v.len() == 0 {
        return Some(
            "<section class=\"damus-section\"><h2 class=\"damus-section-title\">Recent Notes</h2><div class=\"damus-card\"><p class=\"damus-supporting muted\">No recent notes yet.</p></div></section>".to_owned(),
        );
    }
    let order = newest_order(v);
    let ghost ord = newest_first(v@);
    let shown: usize = if v.len() < 12 {
        v.len()
    } else {
        12
    };
    assert(order.len() == v.len());
    assert(shown == min_limit(v@.len()));
    let mut cards = String::new();
    assert(cards@ =~= Seq::<char>::empty());
    for k in 0..shown
        invariant
            shown <= order.len() == v.len(),
            shown == min_limit(v@.len()),
            ord.len() == v.len(),
            ord == newest_first(v@),
            match recent {
                Some(w) => w@ == v@,
                None => false,
            },
            v.len() > 0,
            as_ints(order@) == ord,
            forall|j: int| 0 <= j < order.len() ==> order@[j] < v.len(),
            forall|j: int| 0 <= j < v.len() ==> card_bound(#[trigger] v@[j]),
            cards_spec(v@, ord.take(k as int), relays.deep_view(), base_url@, now) == Some(cards@),
    {
        assert(ord.take(k + 1).drop_last() =~= ord.take(k as int));
        assert(ord.take(k + 1).last() == order@[k as int] as int);
        let c = &v[order[k]];
        assert(card_bound(v@[order@[k as int] as int]));
        match build_note_content_html(c, base_url, relays, now) {
            Some(h) => cards.append(h.as_str()),
            None => {
                proof {
                    assert(spec_nevent_bech32(c.note.id, None, None, relays.deep_view()) is None);
                    assert(cards_spec(v@, ord.take(k + 1), relays.deep_view(), base_url@, now) is None);
                    let lim = ord.take(min_limit(v@.len()));
                    assert(lim.take(k + 1) =~= ord.take(k + 1));
                    lemma_cards_none(v@, lim, relays.deep_view(), base_url@, now, k + 1);
                }
                return None;
            },
        }
    }
    assert(min_limit(v@.len()) == shown);
    let mut out = String::new();
    out.append("<section class=\"damus-section\"><h2 class=\"damus-section-title\">Recent Notes</h2>");
    out.append(cards.as_str());
    out.append("</section>");
    Some(out)
}


// ---------------------------------------------------------------------
// The page
// ---------------------------------------------------------------------

/// What a profile page shows, as the store has it.
#[derive(Debug)]
pub struct ProfilePageData {
    /// The author's stored profile
    pub profile: Option<ProfileInfo>,
    /// The author's relay-list notes (kind 10002) that the store found
    pub relay_lists: Vec<NoteData>,
    /// The author's recent notes, or `None` when the store could not be asked
    pub recent: Option<Vec<NoteCardData>>,
}

pub open spec fn about_html_spec(about: Seq<char>) -> Seq<char> {
    if about.len() == 0 {
        Seq::empty()
    } else {
        "<p class=\"damus-profile-about\">"@ + replace_char_spec(esc_text(about), '\n', "<br/>"@) + "</p>"@
    }
}

pub open spec fn recent_view(r: Option<Vec<NoteCardData>>) -> Option<Seq<NoteCardData>> {
    match r {
        Some(v) => Some(v@),
        None => None,
    }
}

/// The profile card and recent notes; `None` when the `nevent` of a recent
/// note cannot be encoded.
pub open spec fn profile_main_spec(
    d: ProfilePageData,
    bech32: Seq<char>,
    relays: Seq<Seq<char>>,
    base_url: Seq<char>,
    now: u64,
) -> Option<Seq<char>> {
    let n = profile_names_spec(pv(d.profile));
    let meta_html = "<div class=\"damus-profile-meta\">"@ + meta_rows_spec(pv(d.profile), bech32) + "</div>"@;
    let relays_html = relay_section_spec(latest_list_spec(d.relay_lists@));
    match recent_spec(recent_view(d.recent), relays, base_url, now) {
        None => None,
        Some(recent) => Some("<article class=\"damus-card damus-profile-card\">\n              <header class=\"damus-profile-header\">\n                <img src=\""@ + esc_attr(n.3) + "\" alt=\""@ + esc_text(n.1) + " profile picture\" class=\"damus-note-avatar\" />\n                <div class=\"damus-profile-names\">\n                  <div class=\"damus-note-author\">"@ + esc_text(n.1) + "</div>\n                  <div class=\"damus-profile-handle\">@"@ + esc_text(n.0) + "</div>\n                </div>\n              </header>\n              "@ + about_html_spec(n.2) + "\n              "@ + meta_html + "\n              "@ + relays_html + "\n            </article>\n            "@ + recent),
    }
}

pub open spec fn profile_page_spec(
    n: (Seq<char>, Seq<char>, Seq<char>, Seq<char>),
    main: Seq<char>,
    bech32: Seq<char>,
    base_url: Seq<char>,
) -> Seq<char> {
    let fallback = base_url + "/"@ + bech32 + ".png"@;
    let og0 = if n.3.len() == 0 {
        fallback
    } else {
        n.3
    };
    let og_image = if trim_seq(og0).len() == 0 {
        fallback
    } else {
        og0
    };
    let desc0 = if n.2.len() == 0 {
        n.1 + " on nostr"@
    } else {
        n.2
    };
    let og_desc = if desc0.len() == 0 {
        n.1
    } else {
        desc0
    };
    "<!DOCTYPE html>\n<html lang=\"en\">\n  <head>\n    <meta charset=\"UTF-8\" />\n    <title>"@ + esc_text(n.1 + " on nostr"@) + "</title>\n    <meta name=\"viewport\" content=\"width=device-width, initial-scale=1\" />\n    <meta name=\"description\" content=\""@ + esc_attr(og_desc) + "\" />\n    <link rel=\"preload\" href=\"/fonts/PoetsenOne-Regular.ttf\" as=\"font\" type=\"font/ttf\" crossorigin />\n    <link rel=\"stylesheet\" href=\"/damus.css?v=7\" type=\"text/css\" />\n    <meta property=\"og:title\" content=\""@ + esc_attr(n.1 + " on nostr"@) + "\" />\n    <meta property=\"og:description\" content=\""@ + esc_attr(og_desc) + "\" />\n    <meta property=\"og:type\" content=\"profile\" />\n    <meta property=\"og:url\" content=\""@ + esc_attr(base_url + "/"@ + bech32) + "\" />\n    <meta property=\"og:image\" content=\""@ + esc_attr(og_image) + "\" />\n    <meta property=\"og:image:alt\" content=\""@ + esc_attr(n.1 + ": "@ + og_desc) + "\" />\n    <meta property=\"og:image:height\" content=\"600\" />\n    <meta property=\"og:image:width\" content=\"1200\" />\n    <meta property=\"og:image:type\" content=\"image/png\" />\n    <meta property=\"og:site_name\" content=\"Damus\" />\n    <meta name=\"twitter:card\" content=\"summary_large_image\" />\n    <meta name=\"twitter:title\" content=\""@ + esc_attr(n.1 + " on nostr"@) + "\" />\n    <meta name=\"twitter:description\" content=\""@ + esc_attr(og_desc) + "\" />\n    <meta name=\"twitter:image\" content=\""@ + esc_attr(og_image) + "\" />\n    <meta name=\"theme-color\" content=\"#bd66ff\" />\n  </head>\n  <body>\n    <div class=\"damus-app\">\n      <header class=\"damus-header\">\n        <a class=\"damus-logo-link\" href=\"https://damus.io\" target=\"_blank\" rel=\"noopener noreferrer\"><img class=\"damus-logo-image\" src=\"/assets/logo_icon.png?v=2\" alt=\"Damus\" width=\"40\" height=\"40\" /></a>\n        <div class=\"damus-header-actions\">\n          <a class=\"damus-cta\" data-damus-cta data-default-url=\"nostr:"@ + bech32 + "\" href=\"nostr:"@ + bech32 + "\">Open in Damus</a>\n        </div>\n      </header>\n      <main class=\"damus-main\">\n"@ + main + "\n      </main>\n      <footer class=\"damus-footer\">\n        <a href=\"https://github.com/damus-io/notecrumbs\" target=\"_blank\" rel=\"noopener noreferrer\">Rendered by notecrumbs</a>\n      </footer>\n    </div>\n"@ + LOCAL_TIME_SCRIPT@ + DAMUS_PLATFORM_SCRIPT@ + "\n  </body>\n</html>\n"@
}

pub open spec fn profile_bounds(d: ProfilePageData) -> bool {
    match d.recent {
        Some(v) => forall|k: int| 0 <= k < v.len() ==> card_bound(#[trigger] v@[k]),
        None => true,
    }
}

fn profile_main(d: &ProfilePageData, bech32: &str, relays: &Vec<String>, base_url: &str, now: u64) -> (res: Option<String>)
    requires
        profile_bounds(*d),
    ensures
        opt_view_s(res) == profile_main_spec(*d, bech32@, relays.deep_view(), base_url@, now),
{
    let (username, display, about, _pic) = profile_names(&d.profile);
    let display_html = encode_text(display.as_str());
    let username_html = encode_text(username.as_str());
    let pfp_attr = encode_double_quoted_attribute(_pic.as_str());
    let about_html = if about.as_str().unicode_len() == 0 {
        String::new()
    } else {
        let e = encode_text(about.as_str());
        let r = replace_char(e.as_str(), '\n', "<br/>");
        let mut a = String::new();
        a.append("<p class=\"damus-profile-about\">");
        a.append(r.as_str());
        a.append("</p>");
        a
    };
    let rows = meta_rows(&d.profile, bech32);
    let mut meta_html = String::new();
    meta_html.append("<div class=\"damus-profile-meta\">");
    meta_html.append(rows.as_str());
    meta_html.append("</div>");
    let entries = latest_relay_list(&d.relay_lists);
    let relays_html = relay_section(&entries);
    let recent_s = match recent_notes_html(&d.recent, relays, base_url, now) {
        Some(r) => r,
        None => return None,
    };
    let recent = recent_s.as_str();
    proof {
        reveal_strlit("");
    }
    let mut out = String::new();
    out.append("<article class=\"damus-card damus-profile-card\">\n              <header class=\"damus-profile-header\">\n                <img src=\"");
    out.append(pfp_attr.as_str());
    out.append("\" alt=\"");
    out.append(display_html.as_str());
    out.append(" profile picture\" class=\"damus-note-avatar\" />\n                <div class=\"damus-profile-names\">\n                  <div class=\"damus-note-author\">");
    out.append(display_html.as_str());
    out.append("</div>\n                  <div class=\"damus-profile-handle\">@");
    out.append(username_html.as_str());
    out.append("</div>\n                </div>\n              </header>\n              ");
    out.append(about_html.as_str());
    out.append("\n              ");
    out.append(meta_html.as_str());
    out.append("\n              ");
    out.append(relays_html.as_str());
    out.append("\n            </article>\n            ");
    out.append(recent);
    Some(out)
}

fn profile_page_doc(names: &(String, String, String, String), main: &String, bech32: &str, base_url: &str) -> (res: String)
    ensures
        res@ == profile_page_spec((names.0@, names.1@, names.2@, names.3@), main@, bech32@, base_url@),
{
    let ghost n = (names.0@, names.1@, names.2@, names.3@);
    let mut fallback = base_url.to_owned();
    fallback.append("/");
    fallback.append(bech32);
    fallback.append(".png");
    let og0 = if names.3.as_str().unicode_len() == 0 {
        fallback.clone()
    } else {
        names.3.clone()
    };
    let og_image_raw = if trim(og0.as_str()).as_str().unicode_len() == 0 {
        fallback
    } else {
        og0
    };
    let desc0 = if names.2.as_str().unicode_len() == 0 {
        let mut t = names.1.clone();
        t.append(" on nostr");
        t
    } else {
        names.2.clone()
    };
    let og_desc = if desc0.as_str().unicode_len() == 0 {
        names.1.clone()
    } else {
        desc0
    };
    let mut title = names.1.clone();
    title.append(" on nostr");
    let page_title = encode_text(title.as_str());
    let og_title = encode_double_quoted_attribute(title.as_str());
    let og_description = encode_double_quoted_attribute(og_desc.as_str());
    let og_image = encode_double_quoted_attribute(og_image_raw.as_str());
    let mut alt = names.1.clone();
    alt.append(": ");
    alt.append(og_desc.as_str());
    let og_image_alt = encode_double_quoted_attribute(alt.as_str());
    let mut canonical_raw = base_url.to_owned();
    canonical_raw.append("/");
    canonical_raw.append(bech32);
    let canonical = encode_double_quoted_attribute(canonical_raw.as_str());
    let mut scripts = String::new();
    scripts.append(LOCAL_TIME_SCRIPT);
    scripts.append(DAMUS_PLATFORM_SCRIPT);
    let mut page = String::new();
    page.append("<!DOCTYPE html>\n<html lang=\"en\">\n  <head>\n    <meta charset=\"UTF-8\" />\n    <title>");
    page.append(page_title.as_str());
    page.append("</title>\n    <meta name=\"viewport\" content=\"width=device-width, initial-scale=1\" />\n    <meta name=\"description\" content=\"");
    page.append(og_description.as_str());
    page.append("\" />\n    <link rel=\"preload\" href=\"/fonts/PoetsenOne-Regular.ttf\" as=\"font\" type=\"font/ttf\" crossorigin />\n    <link rel=\"stylesheet\" href=\"/damus.css?v=7\" type=\"text/css\" />\n    <meta property=\"og:title\" content=\"");
    page.append(og_title.as_str());
    page.append("\" />\n    <meta property=\"og:description\" content=\"");
    page.append(og_description.as_str());
    page.append("\" />\n    <meta property=\"og:type\" content=\"profile\" />\n    <meta property=\"og:url\" content=\"");
    page.append(canonical.as_str());
    page.append("\" />\n    <meta property=\"og:image\" content=\"");
    page.append(og_image.as_str());
    page.append("\" />\n    <meta property=\"og:image:alt\" content=\"");
    page.append(og_image_alt.as_str());
    page.append("\" />\n    <meta property=\"og:image:height\" content=\"600\" />\n    <meta property=\"og:image:width\" content=\"1200\" />\n    <meta property=\"og:image:type\" content=\"image/png\" />\n    <meta property=\"og:site_name\" content=\"Damus\" />\n    <meta name=\"twitter:card\" content=\"summary_large_image\" />\n    <meta name=\"twitter:title\" content=\"");
    page.append(og_title.as_str());
    page.append("\" />\n    <meta name=\"twitter:description\" content=\"");
    page.append(og_description.as_str());
    page.append("\" />\n    <meta name=\"twitter:image\" content=\"");
    page.append(og_image.as_str());
    page.append("\" />\n    <meta name=\"theme-color\" content=\"#bd66ff\" />\n  </head>\n  <body>\n    <div class=\"damus-app\">\n      <header class=\"damus-header\">\n        <a class=\"damus-logo-link\" href=\"https://damus.io\" target=\"_blank\" rel=\"noopener noreferrer\"><img class=\"damus-logo-image\" src=\"/assets/logo_icon.png?v=2\" alt=\"Damus\" width=\"40\" height=\"40\" /></a>\n        <div class=\"damus-header-actions\">\n          <a class=\"damus-cta\" data-damus-cta data-default-url=\"nostr:");
    page.append(bech32);
    page.append("\" href=\"nostr:");
    page.append(bech32);
    page.append("\">Open in Damus</a>\n        </div>\n      </header>\n      <main class=\"damus-main\">\n");
    page.append(main.as_str());
    page.append("\n      </main>\n      <footer class=\"damus-footer\">\n        <a href=\"https://github.com/damus-io/notecrumbs\" target=\"_blank\" rel=\"noopener noreferrer\">Rendered by notecrumbs</a>\n      </footer>\n    </div>\n");
    page.append(scripts.as_str());
    page.append("\n  </body>\n</html>\n");
    page
}

/// The HTML page of the profile that `nip` names. `None` when the `nevent`
/// of one of its recent notes cannot be encoded.
pub fn build_profile_page(d: &ProfilePageData, nip: &Nip19Ref, base_url: &str, now: u64) -> (res: Option<String>)
    requires
        profile_bounds(*d),
    ensures
        ({
            let bech32 = unwrap_or(bech32_spec(nip@), Seq::empty());
            match profile_main_spec(*d, bech32, relays_of(nip@), base_url@, now) {
                None => res is None,
                Some(main) => res is Some && res->0@ == profile_page_spec(
                    profile_names_spec(pv(d.profile)),
                    main,
                    bech32,
                    base_url@,
                ),
            }
        }),
{
    let bech32 = match to_bech32(nip) {
        Some(b) => b,
        None => {
            let e = String::new();
            assert(e@ =~= Seq::<char>::empty());
            e
        },
    };
    let relays = nip19_relays(nip);
    let main = match profile_main(d, bech32.as_str(), &relays, base_url, now) {
        Some(m) => m,
        None => return None,
    };
    let names = profile_names(&d.profile);
    Some(profile_page_doc(&names, &main, bech32.as_str(), base_url))
}

} // verus!
