//! Quoted events: references gathered from `q` tags (NIP-18) and from
//! inline mentions, their links, and the article addresses they may hold.
use vstd::prelude::*;
use crate::text::{
    trim, trim_seq, has_prefix, starts_with, str_eq, chars_of, index_of, first_of, sub_vec,
    string_of, parse_u64, parse_u64_spec,
};
use crate::note::{TagItem, NoteData, tag_str, get_str, tag_str_is};
use crate::nip19::{
    Nip19Ref, Nip19View, decode_nip19, spec_decode_nip19, parse_relay, spec_parse_relay,
    clone_strings, opt_view, note_bech32, spec_note_bech32, naddr_bech32, spec_naddr_bech32,
};
use crate::escape::{decode_hex32, hex32_spec};
use crate::render::{coordinate_tag, coordinate_tag_spec};
use crate::blocks::{Block, Mention};

verus! {

/// A quoted event, from a `q` tag or an inline mention. Relays are the
/// text of relay URLs.
#[derive(Debug)]
pub enum QuoteRef {
    Event { id: [u8; 32], bech32: Option<String>, relays: Vec<String> },
    Article { addr: String, bech32: Option<String>, relays: Vec<String> },
}

pub ghost enum QuoteView {
    Event { id: Seq<u8>, bech32: Option<Seq<char>>, relays: Seq<Seq<char>> },
    Article { addr: Seq<char>, bech32: Option<Seq<char>>, relays: Seq<Seq<char>> },
}

impl View for QuoteRef {
    type V = QuoteView;

    open spec fn view(&self) -> QuoteView {
        match self {
            QuoteRef::Event { id, bech32, relays } => QuoteView::Event {
                id: id@,
                bech32: opt_view(*bech32),
                relays: relays.deep_view(),
            },
            QuoteRef::Article { addr, bech32, relays } => QuoteView::Article {
                addr: addr@,
                bech32: opt_view(*bech32),
                relays: relays.deep_view(),
            },
        }
    }
}

pub open spec fn quotes_view(v: Seq<QuoteRef>) -> Seq<QuoteView> {
    v.map_values(|q: QuoteRef| q@)
}

pub open spec fn opt_seq<T>(o: Option<T>) -> Seq<T> {
    match o {
        Some(x) => seq![x],
        None => Seq::empty(),
    }
}

/// Relays with `hint` added at the end unless already present.
pub open spec fn add_hint(relays: Seq<Seq<char>>, hint: Option<Seq<char>>) -> Seq<Seq<char>> {
    match hint {
        Some(h) => if relays.contains(h) {
            relays
        } else {
            relays.push(h)
        },
        None => relays,
    }
}

/// The relay hint of a `q` tag: its third element, when non-empty and a
/// relay URL.
pub open spec fn q_hint(tag: Seq<TagItem>) -> Option<Seq<char>> {
    match tag_str(tag, 2) {
        Some(s) => if s.len() > 0 {
            spec_parse_relay(s)
        } else {
            None
        },
        None => None,
    }
}

/// `kind:pubkey-hex:identifier`
pub open spec fn addr_of(kind: u16, pubkey: [u8; 32], identifier: Seq<char>) -> Seq<char> {
    coordinate_tag_spec(pubkey, kind as u64, identifier)
}

/// The quote a `q` tag value `t` stands for as `nevent`/`note` bech32.
pub open spec fn q_event(t: Seq<char>, hint: Option<Seq<char>>) -> Option<QuoteView> {
    if has_prefix(t, "nevent1"@) || has_prefix(t, "note1"@) {
        match spec_decode_nip19(t) {
            Some(Nip19View::Event { id, relays, .. }) => Some(
                QuoteView::Event { id: id@, bech32: Some(t), relays: add_hint(relays, hint) },
            ),
            Some(Nip19View::EventId(id)) => Some(
                QuoteView::Event { id: id@, bech32: Some(t), relays: opt_seq(hint) },
            ),
            _ => None,
        }
    } else {
        None
    }
}

/// The quote a `q` tag value `t` stands for as `naddr` bech32.
pub open spec fn q_addr(t: Seq<char>, hint: Option<Seq<char>>) -> Option<QuoteView> {
    if has_prefix(t, "naddr1"@) {
        match spec_decode_nip19(t) {
            Some(Nip19View::Coordinate { kind, pubkey, identifier, relays }) => Some(
                QuoteView::Article {
                    addr: addr_of(kind, pubkey, identifier),
                    bech32: Some(t),
                    relays: add_hint(relays, hint),
                },
            ),
            _ => None,
        }
    } else {
        None
    }
}

/// The quote of a `q` tag: its trimmed value read, in this order, as an
/// `nevent`/`note`, an `naddr`, an article address (`30023:`/`30024:`) or a
/// hex event id.
pub open spec fn quote_of_tag(tag: Seq<TagItem>) -> Option<QuoteView> {
    if tag_str(tag, 0) != Some("q"@) {
        None
    } else {
        match tag_str(tag, 1) {
            None => None,
            Some(v) => {
                let t = trim_seq(v);
                let h = q_hint(tag);
                if q_event(t, h) is Some {
                    q_event(t, h)
                } else if q_addr(t, h) is Some {
                    q_addr(t, h)
                } else if has_prefix(t, "30023:"@) || has_prefix(t, "30024:"@) {
                    Some(QuoteView::Article { addr: t, bech32: None, relays: opt_seq(h) })
                } else {
                    match hex32_spec(t) {
                        Some(id) => Some(QuoteView::Event { id, bech32: None, relays: opt_seq(h) }),
                        None => None,
                    }
                }
            },
        }
    }
}

pub open spec fn quotes_from_tags_spec(tags: Seq<Vec<TagItem>>) -> Seq<QuoteView>
    decreases tags.len(),
{
    if tags.len() == 0 {
        Seq::empty()
    } else {
        quotes_from_tags_spec(tags.drop_last()) + opt_seq(quote_of_tag(tags.last()@))
    }
}

/// Whether `v` holds `s`, comparing text.
pub fn contains_str(v: &Vec<String>, s: &str) -> (res: bool)
    ensures
        res == v.deep_view().contains(s@),
{
    let mut i: usize = 0;
    while i < v.len()
        invariant
            i <= v.len(),
            forall|j: int| 0 <= j < i ==> v@[j]@ != s@,
        decreases v.len() - i,
    {
        if str_eq(v[i].as_str(), s) {
            assert(v.deep_view()[i as int] == s@);
            return true;
        }
        i = i + 1;
    }
    assert forall|j: int| 0 <= j < v.deep_view().len() implies v.deep_view()[j] != s@ by {
        assert(v.deep_view()[j] == v@[j]@);
    }
    false
}

fn with_hint(relays: Vec<String>, hint: &Option<String>) -> (res: Vec<String>)
    ensures
        res.deep_view() == add_hint(relays.deep_view(), opt_view(*hint)),
{
    let mut relays = relays;
    if let Some(h) = hint {
        if !contains_str(&relays, h.as_str()) {
            let ghost before = relays.deep_view();
            relays.push(h.clone());
            assert(relays.deep_view() =~= before.push(h@));
        }
    }
    relays
}

fn hint_vec(hint: &Option<String>) -> (res: Vec<String>)
    ensures
        res.deep_view() == opt_seq(opt_view(*hint)),
{
    let mut v: Vec<String> = Vec::new();
    if let Some(h) = hint {
        v.push(h.clone());
    }
    assert(v.deep_view() =~= opt_seq(opt_view(*hint)));
    v
}

fn q_tag_hint(tag: &Vec<TagItem>) -> (res: Option<String>)
    ensures
        opt_view(res) == q_hint(tag@),
{
    match get_str(tag, 2) {
        Some(s) => {
            if s.as_str().unicode_len() > 0 {
                parse_relay(s.as_str())
            } else {
                None
            }
        },
        None => None,
    }
}

/// The quote a `q` tag stands for, if any.
pub fn quote_from_tag(tag: &Vec<TagItem>) -> (res: Option<QuoteRef>)
    ensures
        match res {
            Some(q) => quote_of_tag(tag@) == Some(q@),
            None => quote_of_tag(tag@) is None,
        },
{
    if !tag_str_is(tag, 0, "q") {
        return None;
    }
    let value = match get_str(tag, 1) {
        Some(v) => v,
        None => return None,
    };
    let t = trim(value.as_str());
    let hint = q_tag_hint(tag);
    let ghost tv = t@;
    let ghost h = opt_view(hint);
    if starts_with(t.as_str(), "nevent1") || starts_with(t.as_str(), "note1") {
        match decode_nip19(t.as_str()) {
            Some(Nip19Ref::Event(id, _, _, relays)) => {
                let r = with_hint(relays, &hint);
                return Some(QuoteRef::Event { id, bech32: Some(t), relays: r });
            },
            Some(Nip19Ref::EventId(id)) => {
                let r = hint_vec(&hint);
                return Some(QuoteRef::Event { id, bech32: Some(t), relays: r });
            },
            _ => {},
        }
    }
    assert(q_event(tv, h) is None);
    if starts_with(t.as_str(), "naddr1") {
        match decode_nip19(t.as_str()) {
            Some(Nip19Ref::Coordinate(kind, pubkey, identifier, relays)) => {
                let addr = coordinate_tag(&pubkey, kind as u64, identifier.as_str());
                let r = with_hint(relays, &hint);
                return Some(QuoteRef::Article { addr, bech32: Some(t), relays: r });
            },
            _ => {},
        }
    }
    assert(q_addr(tv, h) is None);
    if starts_with(t.as_str(), "30023:") || starts_with(t.as_str(), "30024:") {
        let r = hint_vec(&hint);
        return Some(QuoteRef::Article { addr: t, bech32: None, relays: r });
    }
    match decode_hex32(t.as_str()) {
        Some(id) => {
            let r = hint_vec(&hint);
            Some(QuoteRef::Event { id, bech32: None, relays: r })
        },
        None => None,
    }
}

/// Extracts quote references from the `q` tags (NIP-18 quote reposts) of a
/// note, in tag order.
pub fn extract_quote_refs_from_tags(tags: &Vec<Vec<TagItem>>) -> (res: Vec<QuoteRef>)
    ensures
        quotes_view(res@) == quotes_from_tags_spec(tags@),
{
    let mut quotes: Vec<QuoteRef> = Vec::new();
    for i in 0..tags.len()
        invariant
            quotes_view(quotes@) == quotes_from_tags_spec(tags@.take(i as int)),
    {
        assert(tags@.take(i + 1).drop_last() =~= tags@.take(i as int));
        let ghost before = quotes@;
        match quote_from_tag(&tags[i]) {
            Some(q) => {
                quotes.push(q);
                assert(quotes_view(quotes@) =~= quotes_view(before) + opt_seq(
                    quote_of_tag(tags@[i as int]@),
                ));
            },
            None => {
                assert(quotes_view(quotes@) =~= quotes_view(before) + opt_seq(
                    quote_of_tag(tags@[i as int]@),
                ));
            },
        }
    }
    assert(tags@.take(tags.len() as int) =~= tags@);
    quotes
}


/// The quote an inline mention stands for: an `nevent`/`note` mention that
/// decodes to an event, or an `naddr` mention of an article (kinds 30023,
/// 30024) or a highlight (kind 9802).
pub open spec fn quote_of_block(b: Block) -> Option<QuoteView> {
    match b {
        Block::MentionBech32 { text, mention, .. } => {
            let t = text@;
            match mention {
                Mention::Event { .. } => match spec_decode_nip19(t) {
                    Some(Nip19View::Event { id, relays, .. }) => Some(
                        QuoteView::Event { id: id@, bech32: Some(t), relays },
                    ),
                    Some(Nip19View::EventId(id)) => Some(
                        QuoteView::Event { id: id@, bech32: Some(t), relays: Seq::empty() },
                    ),
                    _ => None,
                },
                Mention::Note(_) => match spec_decode_nip19(t) {
                    Some(Nip19View::EventId(id)) => Some(
                        QuoteView::Event { id: id@, bech32: Some(t), relays: Seq::empty() },
                    ),
                    _ => None,
                },
                Mention::Addr => match spec_decode_nip19(t) {
                    Some(Nip19View::Coordinate { kind, pubkey, identifier, relays }) => if kind
                        == 30023 || kind == 30024 || kind == 9802 {
                        Some(
                            QuoteView::Article {
                                addr: addr_of(kind, pubkey, identifier),
                                bech32: Some(t),
                                relays,
                            },
                        )
                    } else {
                        None
                    },
                    _ => None,
                },
                _ => None,
            }
        },
        _ => None,
    }
}

pub open spec fn quotes_from_blocks_spec(blocks: Seq<Block>) -> Seq<QuoteView>
    decreases blocks.len(),
{
    if blocks.len() == 0 {
        Seq::empty()
    } else {
        quotes_from_blocks_spec(blocks.drop_last()) + opt_seq(quote_of_block(blocks.last()))
    }
}

pub fn quote_from_block(block: &Block) -> (res: Option<QuoteRef>)
    ensures
        match res {
            Some(q) => quote_of_block(*block) == Some(q@),
            None => quote_of_block(*block) is None,
        },
{
    match block {
        Block::MentionBech32 { text, mention, .. } => {
            let none: Vec<String> = Vec::new();
            assert(none.deep_view() =~= Seq::<Seq<char>>::empty());
            match mention {
                Mention::Event { .. } => match decode_nip19(text.as_str()) {
                    Some(Nip19Ref::Event(id, _, _, relays)) => Some(
                        QuoteRef::Event { id, bech32: Some(text.clone()), relays },
                    ),
                    Some(Nip19Ref::EventId(id)) => Some(
                        QuoteRef::Event { id, bech32: Some(text.clone()), relays: none },
                    ),
                    _ => None,
                },
                Mention::Note(_) => match decode_nip19(text.as_str()) {
                    Some(Nip19Ref::EventId(id)) => Some(
                        QuoteRef::Event { id, bech32: Some(text.clone()), relays: none },
                    ),
                    _ => None,
                },
                Mention::Addr => match decode_nip19(text.as_str()) {
                    Some(Nip19Ref::Coordinate(kind, pubkey, identifier, relays)) => {
                        if kind == 30023 || kind == 30024 || kind == 9802 {
                            let addr = coordinate_tag(&pubkey, kind as u64, identifier.as_str());
                            Some(QuoteRef::Article { addr, bech32: Some(text.clone()), relays })
                        } else {
                            None
                        }
                    },
                    _ => None,
                },
                _ => None,
            }
        },
        _ => None,
    }
}

/// Extracts quote references from inline `nevent`/`note`/`naddr` mentions
/// in a note's content, in order.
pub fn extract_quote_refs_from_content(blocks: &Vec<Block>) -> (res: Vec<QuoteRef>)
    ensures
        quotes_view(res@) == quotes_from_blocks_spec(blocks@),
{
    let mut quotes: Vec<QuoteRef> = Vec::new();
    for i in 0..blocks.len()
        invariant
            quotes_view(quotes@) == quotes_from_blocks_spec(blocks@.take(i as int)),
    {
        assert(blocks@.take(i + 1).drop_last() =~= blocks@.take(i as int));
        let ghost before = quotes@;
        match quote_from_block(&blocks[i]) {
            Some(q) => {
                quotes.push(q);
            },
            None => {},
        }
        assert(quotes_view(quotes@) =~= quotes_view(before) + opt_seq(
            quote_of_block(blocks@[i as int]),
        ));
    }
    assert(blocks@.take(blocks.len() as int) =~= blocks@);
    quotes
}

// ---------------------------------------------------------------------
// Merging quotes from tags and content
// ---------------------------------------------------------------------

/// `refs` followed by each of `extra` that is not already present, in order.
pub open spec fn merge_quotes_spec(refs: Seq<QuoteView>, extra: Seq<QuoteView>) -> Seq<QuoteView>
    decreases extra.len(),
{
    if extra.len() == 0 {
        refs
    } else {
        let acc = merge_quotes_spec(refs, extra.drop_last());
        if acc.contains(extra.last()) {
            acc
        } else {
            acc.push(extra.last())
        }
    }
}

/// Two quotes name the same event: the same id, or the same article address.
pub open spec fn same_target(a: QuoteView, b: QuoteView) -> bool {
    match (a, b) {
        (QuoteView::Event { id: x, .. }, QuoteView::Event { id: y, .. }) => x == y,
        (QuoteView::Article { addr: x, .. }, QuoteView::Article { addr: y, .. }) => x == y,
        _ => false,
    }
}

pub open spec fn has_target(v: Seq<QuoteView>, q: QuoteView) -> bool {
    exists|j: int| 0 <= j < v.len() && same_target(#[trigger] v[j], q)
}

/// `refs` followed by each of `extra` whose event is not already present.
pub open spec fn merge_targets_spec(refs: Seq<QuoteView>, extra: Seq<QuoteView>) -> Seq<QuoteView>
    decreases extra.len(),
{
    if extra.len() == 0 {
        refs
    } else {
        let acc = merge_targets_spec(refs, extra.drop_last());
        if has_target(acc, extra.last()) {
            acc
        } else {
            acc.push(extra.last())
        }
    }
}

pub fn id_eq(a: &[u8; 32], b: &[u8; 32]) -> (res: bool)
    ensures
        res == (a@ == b@),
{
    let mut i: usize = 0;
    while i < 32
        invariant
            i <= 32,
            forall|j: int| 0 <= j < i ==> a@[j] == b@[j],
        decreases 32 - i,
    {
        if a[i] != b[i] {
            return false;
        }
        i = i + 1;
    }
    assert(a@ =~= b@);
    true
}

fn opt_str_eq(a: &Option<String>, b: &Option<String>) -> (res: bool)
    ensures
        res == (opt_view(*a) == opt_view(*b)),
{
    match (a, b) {
        (Some(x), Some(y)) => str_eq(x.as_str(), y.as_str()),
        (None, None) => true,
        _ => false,
    }
}

fn strings_eq(a: &Vec<String>, b: &Vec<String>) -> (res: bool)
    ensures
        res == (a.deep_view() == b.deep_view()),
{
    if a.len() != b.len() {
        assert(a.deep_view().len() != b.deep_view().len());
        return false;
    }
    let mut i: usize = 0;
    while i < a.len()
        invariant
            i <= a.len() == b.len(),
            forall|j: int| 0 <= j < i ==> a@[j]@ == b@[j]@,
        decreases a.len() - i,
    {
        if !str_eq(a[i].as_str(), b[i].as_str()) {
            assert(a.deep_view()[i as int] != b.deep_view()[i as int]);
            return false;
        }
        i = i + 1;
    }
    assert(a.deep_view() =~= b.deep_view());
    true
}

/// Whether two quotes are equal in every part.
pub fn quote_eq(a: &QuoteRef, b: &QuoteRef) -> (res: bool)
    ensures
        res == (a@ == b@),
{
    match (a, b) {
        (
            QuoteRef::Event { id: i1, bech32: b1, relays: r1 },
            QuoteRef::Event { id: i2, bech32: b2, relays: r2 },
        ) => id_eq(i1, i2) && opt_str_eq(b1, b2) && strings_eq(r1, r2),
        (
            QuoteRef::Article { addr: a1, bech32: b1, relays: r1 },
            QuoteRef::Article { addr: a2, bech32: b2, relays: r2 },
        ) => str_eq(a1.as_str(), a2.as_str()) && opt_str_eq(b1, b2) && strings_eq(r1, r2),
        _ => false,
    }
}

/// Whether two quotes name the same event.
pub fn quote_same_target(a: &QuoteRef, b: &QuoteRef) -> (res: bool)
    ensures
        res == same_target(a@, b@),
{
    match (a, b) {
        (QuoteRef::Event { id: i1, .. }, QuoteRef::Event { id: i2, .. }) => id_eq(i1, i2),
        (QuoteRef::Article { addr: a1, .. }, QuoteRef::Article { addr: a2, .. }) => str_eq(
            a1.as_str(),
            a2.as_str(),
        ),
        _ => false,
    }
}

fn contains_quote(v: &Vec<QuoteRef>, q: &QuoteRef, by_target: bool) -> (res: bool)
    ensures
        by_target ==> res == has_target(quotes_view(v@), q@),
        !by_target ==> res == quotes_view(v@).contains(q@),
{
    let ghost qs = quotes_view(v@);
    let mut i: usize = 0;
    while i < v.len()
        invariant
            i <= v.len(),
            qs == quotes_view(v@),
            by_target ==> forall|j: int| 0 <= j < i ==> !same_target(#[trigger] qs[j], q@),
            !by_target ==> forall|j: int| 0 <= j < i ==> #[trigger] qs[j] != q@,
        decreases v.len() - i,
    {
        let hit = if by_target {
            quote_same_target(&v[i], q)
        } else {
            quote_eq(&v[i], q)
        };
        if hit {
            assert(qs[i as int] == v@[i as int]@);
            return true;
        }
        i = i + 1;
    }
    false
}

/// A copy of a quote.
pub fn clone_quote(q: &QuoteRef) -> (res: QuoteRef)
    ensures
        res@ == q@,
{
    match q {
        QuoteRef::Event { id, bech32, relays } => QuoteRef::Event {
            id: *id,
            bech32: match bech32 {
                Some(b) => Some(b.clone()),
                None => None,
            },
            relays: clone_strings(relays),
        },
        QuoteRef::Article { addr, bech32, relays } => QuoteRef::Article {
            addr: addr.clone(),
            bech32: match bech32 {
                Some(b) => Some(b.clone()),
                None => None,
            },
            relays: clone_strings(relays),
        },
    }
}

/// Appends to `refs` the quotes of `extra` not already there: by full
/// equality, or (with `by_target`) by the event they name.
pub fn merge_quote_refs(refs: &mut Vec<QuoteRef>, extra: &Vec<QuoteRef>, by_target: bool)
    ensures
        by_target ==> quotes_view(final(refs)@) == merge_targets_spec(
            quotes_view(old(refs)@),
            quotes_view(extra@),
        ),
        !by_target ==> quotes_view(final(refs)@) == merge_quotes_spec(
            quotes_view(old(refs)@),
            quotes_view(extra@),
        ),
{
    let ghost start = quotes_view(refs@);
    let ghost ex = quotes_view(extra@);
    for k in 0..extra.len()
        invariant
            start == quotes_view(old(refs)@),
            ex == quotes_view(extra@),
            by_target ==> quotes_view(refs@) == merge_targets_spec(start, ex.take(k as int)),
            !by_target ==> quotes_view(refs@) == merge_quotes_spec(start, ex.take(k as int)),
    {
        assert(ex.take(k + 1).drop_last() =~= ex.take(k as int));
        assert(ex.take(k + 1).last() == extra@[k as int]@);
        let ghost before = refs@;
        if !contains_quote(refs, &extra[k], by_target) {
            refs.push(clone_quote(&extra[k]));
            assert(quotes_view(refs@) =~= quotes_view(before).push(extra@[k as int]@));
        }
    }
    assert(ex.take(extra.len() as int) =~= ex);
}

/// All quotes of a note: those of its `q` tags, then those of its inline
/// mentions not already among them.
pub fn collect_all_quote_refs(tags: &Vec<Vec<TagItem>>, blocks: &Option<Vec<Block>>) -> (res: Vec<
    QuoteRef,
>)
    ensures
        quotes_view(res@) == match blocks {
            Some(b) => merge_quotes_spec(quotes_from_tags_spec(tags@), quotes_from_blocks_spec(b@)),
            None => quotes_from_tags_spec(tags@),
        },
{
    let mut refs = extract_quote_refs_from_tags(tags);
    if let Some(b) = blocks {
        let inline = extract_quote_refs_from_content(b);
        merge_quote_refs(&mut refs, &inline, false);
    }
    refs
}

// ---------------------------------------------------------------------
// Article addresses and quote links
// ---------------------------------------------------------------------

/// The first three `:`-separated parts of `s` (`splitn(3, ':')`), when
/// there are three: the last part keeps any further `:`.
pub open spec fn split3(s: Seq<char>) -> Option<(Seq<char>, Seq<char>, Seq<char>)> {
    let i = first_of(s, ':');
    if i >= s.len() {
        None
    } else {
        let r = s.skip(i + 1);
        let j = first_of(r, ':');
        if j >= r.len() {
            None
        } else {
            Some((s.take(i), r.take(j), r.skip(j + 1)))
        }
    }
}

/// `splitn(3, ':')` when it gives three parts.
pub fn split3_exec(s: &str) -> (res: Option<(String, String, String)>)
    ensures
        match res {
            Some((a, b, c)) => split3(s@) == Some((a@, b@, c@)),
            None => split3(s@) is None,
        },
{
    let v = chars_of(s);
    let i = index_of(&v, ':');
    if i >= v.len() {
        return None;
    }
    let rest = sub_vec(&v, i + 1, v.len());
    assert(rest@ =~= s@.skip(i + 1));
    let j = index_of(&rest, ':');
    if j >= rest.len() {
        return None;
    }
    let a = sub_vec(&v, 0, i);
    let b = sub_vec(&rest, 0, j);
    let c = sub_vec(&rest, j + 1, rest.len());
    assert(a@ =~= s@.take(i as int));
    assert(b@ =~= rest@.take(j as int));
    assert(c@ =~= rest@.skip(j + 1));
    Some((string_of(&a), string_of(&b), string_of(&c)))
}

/// The kind, author and identifier of an article address
/// `kind:pubkey-hex:identifier`.
pub open spec fn article_addr_spec(addr: Seq<char>) -> Option<(u64, Seq<u8>, Seq<char>)> {
    match split3(addr) {
        Some((k, p, d)) => match (parse_u64_spec(k), hex32_spec(p)) {
            (Some(kind), Some(pk)) => Some((kind, pk, d)),
            _ => None,
        },
        None => None,
    }
}

pub fn parse_article_addr(addr: &str) -> (res: Option<(u64, [u8; 32], String)>)
    ensures
        match res {
            Some((k, pk, d)) => article_addr_spec(addr@) == Some((k, pk@, d@)),
            None => article_addr_spec(addr@) is None,
        },
{
    let (k, p, d) = match split3_exec(addr) {
        Some(parts) => parts,
        None => return None,
    };
    let kind = match parse_u64(k.as_str()) {
        Some(kind) => kind,
        None => return None,
    };
    match decode_hex32(p.as_str()) {
        Some(pk) => Some((kind, pk, d)),
        None => None,
    }
}

/// The `naddr` bech32 of an article address, when its kind fits in 16 bits,
/// its author is hex, and it encodes.
pub open spec fn addr_naddr_spec(addr: Seq<char>) -> Option<Seq<char>> {
    match split3(addr) {
        Some((k, p, d)) => match (parse_u64_spec(k), hex32_spec(p)) {
            (Some(kind), Some(pk)) => if kind <= 65535 {
                spec_naddr_bech32(kind as u16, pk, d, Seq::empty())
            } else {
                None
            },
            _ => None,
        },
        None => None,
    }
}

pub fn addr_naddr(addr: &str) -> (res: Option<String>)
    ensures
        opt_view(res) == addr_naddr_spec(addr@),
{
    let (k, p, d) = match split3_exec(addr) {
        Some(parts) => parts,
        None => return None,
    };
    let kind = match parse_u64(k.as_str()) {
        Some(kind) => kind,
        None => return None,
    };
    let pk = match decode_hex32(p.as_str()) {
        Some(pk) => pk,
        None => return None,
    };
    if kind > 65535 {
        return None;
    }
    let none: Vec<String> = Vec::new();
    assert(none.deep_view() =~= Seq::<Seq<char>>::empty());
    naddr_bech32(kind as u16, pk, d.as_str(), &none)
}

/// The link of a quote: `/` and its bech32; for an event without one, its
/// `note` bech32; for an article without one, the `naddr` of its address;
/// else `#`.
pub open spec fn quote_link_spec(q: QuoteView) -> Seq<char> {
    match q {
        QuoteView::Event { id, bech32, .. } => match bech32 {
            Some(b) => "/"@ + b,
            None => "/"@ + spec_note_bech32(id),
        },
        QuoteView::Article { addr, bech32, .. } => match bech32 {
            Some(b) => "/"@ + b,
            None => match addr_naddr_spec(addr) {
                Some(n) => "/"@ + n,
                None => "#"@,
            },
        },
    }
}

/// Builds a link URL for a quote reference.
pub fn build_quote_link(quote_ref: &QuoteRef) -> (res: String)
    ensures
        res@ == quote_link_spec(quote_ref@),
{
    let mut link = String::new();
    match quote_ref {
        QuoteRef::Event { id, bech32, .. } => {
            link.append("/");
            match bech32 {
                Some(b) => link.append(b.as_str()),
                None => {
                    let n = note_bech32(*id);
                    link.append(n.as_str());
                },
            }
        },
        QuoteRef::Article { addr, bech32, .. } => match bech32 {
            Some(b) => {
                link.append("/");
                link.append(b.as_str());
            },
            None => match addr_naddr(addr.as_str()) {
                Some(n) => {
                    link.append("/");
                    link.append(n.as_str());
                },
                None => link.append("#"),
            },
        },
    }
    link
}

// ---------------------------------------------------------------------
// Finding an article by its address
// ---------------------------------------------------------------------

/// Reading the tags of a candidate article: whether a `d` tag names
/// `d`, and its last non-blank `title`. `None` when some tag does not start
/// with text, which ends the whole search.
pub open spec fn scan_article_tags(tags: Seq<Vec<TagItem>>, d: Seq<char>) -> Option<
    (bool, Option<Seq<char>>),
>
    decreases tags.len(),
{
    if tags.len() == 0 {
        Some((false, None))
    } else {
        match scan_article_tags(tags.drop_last(), d) {
            None => None,
            Some((found, title)) => {
                let tag = tags.last()@;
                match tag_str(tag, 0) {
                    None => None,
                    Some(name) => if name == "d"@ {
                        Some((found || tag_str(tag, 1) == Some(d), title))
                    } else if name == "title"@ {
                        match tag_str(tag, 1) {
                            Some(t) => if trim_seq(t).len() > 0 {
                                Some((found, Some(t)))
                            } else {
                                Some((found, title))
                            },
                            None => Some((found, title)),
                        }
                    } else {
                        Some((found, title))
                    },
                }
            },
        }
    }
}

/// The first candidate whose `d` tag names `d`: its key and title.
pub open spec fn find_article_spec(notes: Seq<NoteData>, d: Seq<char>) -> Option<(u64, Option<Seq<char>>)>
    decreases notes.len(),
{
    if notes.len() == 0 {
        None
    } else {
        match scan_article_tags(notes[0].tags@, d) {
            None => None,
            Some((true, title)) => Some((notes[0].key, title)),
            Some((false, _)) => find_article_spec(notes.drop_first(), d),
        }
    }
}

fn scan_tags(tags: &Vec<Vec<TagItem>>, d: &str) -> (res: Option<(bool, Option<String>)>)
    ensures
        match res {
            Some((f, t)) => scan_article_tags(tags@, d@) == Some((f, opt_view(t))),
            None => scan_article_tags(tags@, d@) is None,
        },
{
    let mut found = false;
    let mut title: Option<String> = None;
    for i in 0..tags.len()
        invariant
            scan_article_tags(tags@.take(i as int), d@) == Some((found, opt_view(title))),
    {
        assert(tags@.take(i + 1).drop_last() =~= tags@.take(i as int));
        let tag = &tags[i];
        match get_str(tag, 0) {
            None => {
                proof {
                    lemma_scan_abort(tags@, d@, i + 1);
                }
                return None;
            },
            Some(name) => {
                if str_eq(name.as_str(), "d") {
                    if let Some(v) = get_str(tag, 1) {
                        if str_eq(v.as_str(), d) {
                            found = true;
                        }
                    }
                } else if str_eq(name.as_str(), "title") {
                    if let Some(t) = get_str(tag, 1) {
                        if trim(t.as_str()).as_str().unicode_len() > 0 {
                            title = Some(t.clone());
                        }
                    }
                }
            },
        }
    }
    assert(tags@.take(tags.len() as int) =~= tags@);
    Some((found, title))
}

proof fn lemma_scan_abort(tags: Seq<Vec<TagItem>>, d: Seq<char>, k: int)
    requires
        0 <= k <= tags.len(),
        scan_article_tags(tags.take(k), d) is None,
    ensures
        scan_article_tags(tags, d) is None,
    decreases tags.len() - k,
{
    if k < tags.len() {
        assert(tags.take(k + 1).drop_last() =~= tags.take(k));
        lemma_scan_abort(tags, d, k + 1);
    } else {
        assert(tags.take(k) =~= tags);
    }
}

/// Among the notes found for an address (in the order the store gave them),
/// the first whose `d` tag names `d`, with its key and title
/// (`lookup_article_by_addr` after its query).
pub fn find_article(notes: &Vec<NoteData>, d: &str) -> (res: Option<(u64, Option<String>)>)
    ensures
        match res {
            Some((k, t)) => find_article_spec(notes@, d@) == Some((k, opt_view(t))),
            None => find_article_spec(notes@, d@) is None,
        },
{
    let mut i: usize = 0;
    assert(notes@.skip(0) =~= notes@);
    while i < notes.len()
        invariant
            i <= notes.len(),
            find_article_spec(notes@.skip(i as int), d@) == find_article_spec(notes@, d@),
        decreases notes.len() - i,
    {
        assert(notes@.skip(i as int).drop_first() =~= notes@.skip(i + 1));
        assert(notes@.skip(i as int)[0] == notes@[i as int]);
        match scan_tags(&notes[i].tags, d) {
            None => return None,
            Some((true, title)) => return Some((notes[i].key, title)),
            Some((false, _)) => {},
        }
        i = i + 1;
    }
    None
}


/// Merging quotes keeps the first list as it is, in front, and leaves
/// none of the added quotes out.
pub proof fn lemma_merge_quotes_keeps_and_covers(refs: Seq<QuoteView>, extra: Seq<QuoteView>)
    ensures
        merge_quotes_spec(refs, extra).len() >= refs.len(),
        merge_quotes_spec(refs, extra).take(refs.len() as int) == refs,
        forall|i: int| 0 <= i < extra.len() ==> merge_quotes_spec(refs, extra).contains(#[trigger] extra[i]),
    decreases extra.len(),
{
    if extra.len() > 0 {
        let prev = extra.drop_last();
        lemma_merge_quotes_keeps_and_covers(refs, prev);
        let acc = merge_quotes_spec(refs, prev);
        let m = merge_quotes_spec(refs, extra);
        if !acc.contains(extra.last()) {
            assert(m == acc.push(extra.last()));
            assert(m.take(refs.len() as int) =~= acc.take(refs.len() as int));
            assert(m[acc.len() as int] == extra.last());
        }
        assert forall|i: int| 0 <= i < extra.len() implies m.contains(#[trigger] extra[i]) by {
            if i < extra.len() - 1 {
                assert(prev[i] == extra[i]);
                assert(acc.contains(prev[i]));
                let q = choose|q: int| 0 <= q < acc.len() && acc[q] == prev[i];
                if !acc.contains(extra.last()) {
                    assert(m[q] == extra[i]);
                }
            } else if !acc.contains(extra.last()) {
                assert(m[acc.len() as int] == extra[i]);
            }
        }
    }
}

/// Merging quotes by the event they name adds no quote whose event is
/// already present, so no event is shown twice when the first list names
/// each event once.
pub proof fn lemma_merge_targets_unique(refs: Seq<QuoteView>, extra: Seq<QuoteView>)
    requires
        forall|i: int, j: int| 0 <= i < j < refs.len() ==> !same_target(#[trigger] refs[i], #[trigger] refs[j]),
    ensures
        forall|i: int, j: int|
            0 <= i < j < merge_targets_spec(refs, extra).len() ==> !same_target(
                #[trigger] merge_targets_spec(refs, extra)[i],
                #[trigger] merge_targets_spec(refs, extra)[j],
            ),
    decreases extra.len(),
{
    if extra.len() > 0 {
        lemma_merge_targets_unique(refs, extra.drop_last());
        let acc = merge_targets_spec(refs, extra.drop_last());
        let m = merge_targets_spec(refs, extra);
        if !has_target(acc, extra.last()) {
            assert forall|i: int, j: int| 0 <= i < j < m.len() implies !same_target(#[trigger] m[i], #[trigger] m[j]) by {
                if j == acc.len() {
                    assert(m[i] == acc[i]);
                    assert(!same_target(acc[i], extra.last()));
                    assert(m[j] == extra.last());
                    match (m[i], m[j]) {
                        (QuoteView::Event { id: x, .. }, QuoteView::Event { id: y, .. }) => {},
                        (QuoteView::Article { addr: x, .. }, QuoteView::Article { addr: y, .. }) => {},
                        _ => {},
                    }
                } else {
                    assert(m[i] == acc[i] && m[j] == acc[j]);
                }
            }
        }
    }
}


/// `qs` holds the quote that a mention block stands for: an `nevent` or
/// `note` mention decoding to an event gives that event's id with the
/// mention's text and the relays the text carries; an `naddr` mention of an
/// article or highlight gives its address.
pub open spec fn mention_quoted(qs: Seq<QuoteView>, b: Block) -> bool {
    match b {
        Block::MentionBech32 { text, mention, .. } => {
            let t = text@;
            match mention {
                Mention::Event { .. } => match spec_decode_nip19(t) {
                    Some(Nip19View::Event { id, relays, .. }) => qs.contains(
                        QuoteView::Event { id: id@, bech32: Some(t), relays },
                    ),
                    Some(Nip19View::EventId(id)) => qs.contains(
                        QuoteView::Event { id: id@, bech32: Some(t), relays: Seq::empty() },
                    ),
                    _ => true,
                },
                Mention::Note(_) => match spec_decode_nip19(t) {
                    Some(Nip19View::EventId(id)) => qs.contains(
                        QuoteView::Event { id: id@, bech32: Some(t), relays: Seq::empty() },
                    ),
                    _ => true,
                },
                Mention::Addr => match spec_decode_nip19(t) {
                    Some(Nip19View::Coordinate { kind, pubkey, identifier, relays }) => (kind
                        == 30023 || kind == 30024 || kind == 9802) ==> qs.contains(
                        QuoteView::Article {
                            addr: addr_of(kind, pubkey, identifier),
                            bech32: Some(t),
                            relays,
                        },
                    ),
                    _ => true,
                },
                _ => true,
            }
        },
        _ => true,
    }
}

proof fn lemma_quotes_from_blocks_has(blocks: Seq<Block>, i: int)
    requires
        0 <= i < blocks.len(),
        quote_of_block(blocks[i]) is Some,
    ensures
        quotes_from_blocks_spec(blocks).contains(quote_of_block(blocks[i])->0),
    decreases blocks.len(),
{
    let front = blocks.drop_last();
    let tail = opt_seq(quote_of_block(blocks.last()));
    let qs = quotes_from_blocks_spec(blocks);
    if i == blocks.len() - 1 {
        assert(qs[quotes_from_blocks_spec(front).len() as int] == tail[0]);
    } else {
        assert(front[i] == blocks[i]);
        lemma_quotes_from_blocks_has(front, i);
        let q = quote_of_block(blocks[i])->0;
        let k = choose|k: int| 0 <= k < quotes_from_blocks_spec(front).len() && quotes_from_blocks_spec(front)[k] == q;
        assert(qs[k] == q);
    }
}

/// Every inline `nevent`, `note` or `naddr` mention that names a quotable
/// event is among the quotes taken from a note's content, with the
/// mention's text and relays, and so also among all the note's quotes,
/// whatever its `q` tags hold.
pub proof fn lemma_content_quotes_cover(tags: Seq<Vec<TagItem>>, blocks: Seq<Block>)
    ensures
        forall|i: int| 0 <= i < blocks.len() ==> mention_quoted(quotes_from_blocks_spec(blocks), #[trigger] blocks[i]),
        forall|i: int| 0 <= i < blocks.len() ==> mention_quoted(
            merge_quotes_spec(quotes_from_tags_spec(tags), quotes_from_blocks_spec(blocks)),
            #[trigger] blocks[i],
        ),
{
    let qs = quotes_from_blocks_spec(blocks);
    let merged = merge_quotes_spec(quotes_from_tags_spec(tags), qs);
    lemma_merge_quotes_keeps_and_covers(quotes_from_tags_spec(tags), qs);
    assert forall|i: int| 0 <= i < blocks.len() implies mention_quoted(qs, #[trigger] blocks[i])
        && mention_quoted(merged, blocks[i]) by {
        if quote_of_block(blocks[i]) is Some {
            lemma_quotes_from_blocks_has(blocks, i);
            let q = quote_of_block(blocks[i])->0;
            let k = choose|k: int| 0 <= k < qs.len() && qs[k] == q;
            assert(merged.contains(qs[k]));
        }
    }
}


/// `q` is a quote that the mention block `b` names: it carries the
/// mention's text, and what that text decodes to is `q`'s event (with the
/// relays the text carries) or `q`'s article address.
pub open spec fn quote_names_mention(q: QuoteView, b: Block) -> bool {
    match b {
        Block::MentionBech32 { text, mention, .. } => {
            let t = text@;
            match q {
                QuoteView::Event { id, bech32, relays } => bech32 == Some(t) && match spec_decode_nip19(t) {
                    Some(Nip19View::Event { id: i2, relays: r2, .. }) => mention is Event && id == i2@
                        && relays == r2,
                    Some(Nip19View::EventId(i2)) => (mention is Event || mention is Note) && id == i2@
                        && relays.len() == 0,
                    _ => false,
                },
                QuoteView::Article { addr, bech32, relays } => bech32 == Some(t) && mention is Addr
                    && match spec_decode_nip19(t) {
                    Some(Nip19View::Coordinate { kind, pubkey, identifier, relays: r2 }) => (kind
                        == 30023 || kind == 30024 || kind == 9802) && addr == addr_of(
                        kind,
                        pubkey,
                        identifier,
                    ) && relays == r2,
                    _ => false,
                },
            }
        },
        _ => false,
    }
}

proof fn lemma_quote_of_block_names(b: Block)
    ensures
        quote_of_block(b) matches Some(q) ==> quote_names_mention(q, b),
{
}

/// Every quote taken from a note's content is named by one of its mention
/// blocks, and there are no more quotes than blocks.
pub proof fn lemma_content_quotes_sound(blocks: Seq<Block>)
    ensures
        quotes_from_blocks_spec(blocks).len() <= blocks.len(),
        forall|k: int| 0 <= k < quotes_from_blocks_spec(blocks).len() ==> exists|i: int|
            0 <= i < blocks.len() && quote_names_mention(#[trigger] quotes_from_blocks_spec(blocks)[k], blocks[i]),
    decreases blocks.len(),
{
    if blocks.len() > 0 {
        let front = blocks.drop_last();
        let prev = quotes_from_blocks_spec(front);
        let qs = quotes_from_blocks_spec(blocks);
        lemma_content_quotes_sound(front);
        lemma_quote_of_block_names(blocks.last());
        assert forall|k: int| 0 <= k < qs.len() implies exists|i: int|
            0 <= i < blocks.len() && quote_names_mention(#[trigger] qs[k], blocks[i]) by {
            if k < prev.len() {
                assert(qs[k] == prev[k]);
                let i = choose|i: int| 0 <= i < front.len() && quote_names_mention(prev[k], front[i]);
                assert(blocks[i] == front[i]);
            } else {
                assert(qs[k] == quote_of_block(blocks.last())->0);
                assert(quote_names_mention(qs[k], blocks[blocks.len() - 1]));
            }
        }
    }
}

} // verus!
