//! The reply, repost and reaction counts shown under a note.
use vstd::prelude::*;
use crate::text::{decimal, push_decimal, str_eq};
use crate::escape::{encode_text, esc_text};

verus! {

/// One entry of the metadata the store keeps for a note.
#[derive(Debug)]
pub enum MetaEntry {
    Counts { reactions: u32, thread_replies: u32, direct_replies: u16, reposts: u16 },
    /// One reaction content and how many gave it
    Reaction { emoji: String, count: u32 },
    Unknown,
}

/// A reaction other than a like, and how many gave it.
#[derive(Debug)]
pub struct EmojiCount {
    pub emoji: String,
    pub count: u32,
}

pub open spec fn emoji_view(e: EmojiCount) -> (Seq<char>, u32) {
    (e.emoji@, e.count)
}

pub open spec fn emojis_view(v: Seq<EmojiCount>) -> Seq<(Seq<char>, u32)> {
    v.map_values(|e: EmojiCount| emoji_view(e))
}

/// Reading the entries in order: the last counts seen (replies in the
/// thread for a root note, direct replies otherwise) and the reactions
/// other than `+` and the empty one that at least one gave.
pub open spec fn stats_fold(entries: Seq<MetaEntry>, is_root: bool) -> (
    u32,
    u32,
    u16,
    Seq<(Seq<char>, u32)>,
)
    decreases entries.len(),
{
    if entries.len() == 0 {
        (0, 0, 0, Seq::empty())
    } else {
        let f = stats_fold(entries.drop_last(), is_root);
        match entries.last() {
            MetaEntry::Counts { reactions, thread_replies, direct_replies, reposts } => (
                reactions,
                if is_root {
                    thread_replies
                } else {
                    direct_replies as u32
                },
                reposts,
                f.3,
            ),
            MetaEntry::Reaction { emoji, count } => if count > 0 && emoji@ != "+"@ && emoji@.len()
                > 0 {
                (f.0, f.1, f.2, f.3.push((emoji@, count)))
            } else {
                f
            },
            MetaEntry::Unknown => f,
        }
    }
}

/// The index before which `x` goes in a list sorted by count, highest
/// first: after every entry counted at least as often.
pub open spec fn insert_pos(sorted: Seq<(Seq<char>, u32)>, count: u32) -> int
    decreases sorted.len(),
{
    if sorted.len() == 0 {
        0
    } else if sorted[0].1 < count {
        0
    } else {
        1 + insert_pos(sorted.drop_first(), count)
    }
}

pub open spec fn insert_desc(sorted: Seq<(Seq<char>, u32)>, x: (Seq<char>, u32)) -> Seq<
    (Seq<char>, u32),
> {
    let p = insert_pos(sorted, x.1);
    sorted.take(p) + seq![x] + sorted.skip(p)
}

/// The entries sorted by count, highest first, keeping the order of equal
/// counts (a stable sort).
pub open spec fn sort_desc(v: Seq<(Seq<char>, u32)>) -> Seq<(Seq<char>, u32)>
    decreases v.len(),
{
    if v.len() == 0 {
        Seq::empty()
    } else {
        insert_desc(sort_desc(v.drop_last()), v.last())
    }
}

pub open spec fn sum_counts(v: Seq<(Seq<char>, u32)>) -> nat
    decreases v.len(),
{
    if v.len() == 0 {
        0
    } else {
        sum_counts(v.drop_last()) + v.last().1 as nat
    }
}

pub const STATS_OPEN: &'static str = "<div class=\"damus-note-stats\">";

pub const REPLY_STAT_OPEN: &'static str = "<span class=\"damus-stat\"><svg class=\"damus-stat-icon\" viewBox=\"0 0 24 24\" fill=\"none\" stroke=\"currentColor\" stroke-width=\"2\"><path d=\"M21 15a2 2 0 0 1-2 2H7l-4 4V5a2 2 0 0 1 2-2h14a2 2 0 0 1 2 2z\"></path></svg><span class=\"damus-stat-count\">";

pub const REPOST_STAT_OPEN: &'static str = "<span class=\"damus-stat\"><svg class=\"damus-stat-icon\" viewBox=\"0 0 24 24\" fill=\"none\" stroke=\"currentColor\" stroke-width=\"2\"><path d=\"M17 1l4 4-4 4\"></path><path d=\"M3 11V9a4 4 0 0 1 4-4h14\"></path><path d=\"M7 23l-4-4 4-4\"></path><path d=\"M21 13v2a4 4 0 0 1-4 4H3\"></path></svg><span class=\"damus-stat-count\">";

pub const LIKE_STAT_OPEN: &'static str = "<span class=\"damus-stat\"><span class=\"damus-reaction-emoji\">❤️</span><span class=\"damus-stat-count\">";

pub const EMOJI_STAT_OPEN: &'static str = "<span class=\"damus-stat\"><span class=\"damus-reaction-emoji\">";

pub const EMOJI_STAT_MID: &'static str = "</span><span class=\"damus-stat-count\">";

pub const STAT_CLOSE: &'static str = "</span></span>";

pub open spec fn emoji_spans(v: Seq<(Seq<char>, u32)>) -> Seq<char>
    decreases v.len(),
{
    if v.len() == 0 {
        Seq::empty()
    } else {
        emoji_spans(v.drop_last()) + EMOJI_STAT_OPEN@ + esc_text(v.last().0) + EMOJI_STAT_MID@
            + decimal(v.last().1 as nat) + STAT_CLOSE@
    }
}

pub open spec fn count_span(open: Seq<char>, n: nat) -> Seq<char> {
    if n > 0 {
        open + decimal(n) + STAT_CLOSE@
    } else {
        Seq::empty()
    }
}

/// The reaction part: likes (reactions not counted as another emoji), then
/// the five most given other reactions.
pub open spec fn reactions_spec(total: u32, emojis: Seq<(Seq<char>, u32)>) -> Seq<char> {
    let sorted = sort_desc(emojis);
    let likes: nat = if sum_counts(emojis) >= total {
        0
    } else {
        (total - sum_counts(emojis)) as nat
    };
    count_span(LIKE_STAT_OPEN@, likes) + emoji_spans(
        sorted.take(if sorted.len() < 5 {
            sorted.len() as int
        } else {
            5
        }),
    )
}

/// The stats markup of a note, or nothing when the store has no metadata
/// or every count is zero.
pub open spec fn stats_spec(meta: Option<Seq<MetaEntry>>, is_root: bool) -> Seq<char> {
    match meta {
        None => Seq::empty(),
        Some(es) => {
            let f = stats_fold(es, is_root);
            if f.0 == 0 && f.1 == 0 && f.2 == 0 {
                Seq::empty()
            } else {
                STATS_OPEN@ + count_span(REPLY_STAT_OPEN@, f.1 as nat) + count_span(
                    REPOST_STAT_OPEN@,
                    f.2 as nat,
                ) + (if f.0 > 0 {
                    reactions_spec(f.0, f.3)
                } else {
                    Seq::<char>::empty()
                }) + "</div>"@
            }
        },
    }
}

proof fn lemma_insert_pos_bound(sorted: Seq<(Seq<char>, u32)>, count: u32)
    ensures
        0 <= insert_pos(sorted, count) <= sorted.len(),
    decreases sorted.len(),
{
    if sorted.len() > 0 && sorted[0].1 >= count {
        lemma_insert_pos_bound(sorted.drop_first(), count);
    }
}

fn find_insert_pos(sorted: &Vec<EmojiCount>, count: u32) -> (res: usize)
    ensures
        res == insert_pos(emojis_view(sorted@), count),
        res <= sorted.len(),
{
    let ghost v = emojis_view(sorted@);
    let mut i: usize = 0;
    assert(v.skip(0) =~= v);
    while i < sorted.len() && sorted[i].count >= count
        invariant
            v == emojis_view(sorted@),
            i <= sorted.len(),
            i + insert_pos(v.skip(i as int), count) == insert_pos(v, count),
        decreases sorted.len() - i,
    {
        assert(v.skip(i as int).drop_first() =~= v.skip(i + 1));
        assert(v.skip(i as int)[0] == v[i as int]);
        i = i + 1;
    }
    if i < sorted.len() {
        assert(v.skip(i as int)[0] == v[i as int]);
    }
    i
}

fn sort_emojis(v: &Vec<EmojiCount>) -> (res: Vec<EmojiCount>)
    ensures
        emojis_view(res@) == sort_desc(emojis_view(v@)),
{
    let ghost src = emojis_view(v@);
    let mut sorted: Vec<EmojiCount> = Vec::new();
    for i in 0..v.len()
        invariant
            src == emojis_view(v@),
            emojis_view(sorted@) == sort_desc(src.take(i as int)),
    {
        assert(src.take(i + 1).drop_last() =~= src.take(i as int));
        assert(src.take(i + 1).last() == emoji_view(v@[i as int]));
        let p = find_insert_pos(&sorted, v[i].count);
        let ghost before = emojis_view(sorted@);
        proof {
            lemma_insert_pos_bound(before, v@[i as int].count);
        }
        sorted.insert(p, EmojiCount { emoji: v[i].emoji.clone(), count: v[i].count });
        assert(emojis_view(sorted@) =~= insert_desc(before, emoji_view(v@[i as int])));
    }
    assert(src.take(v.len() as int) =~= src);
    sorted
}

fn fold_stats(entries: &Vec<MetaEntry>, is_root: bool) -> (res: (u32, u32, u16, Vec<EmojiCount>))
    ensures
        (res.0, res.1, res.2, emojis_view(res.3@)) == stats_fold(entries@, is_root),
{
    let mut total: u32 = 0;
    let mut replies: u32 = 0;
    let mut reposts: u16 = 0;
    let mut emojis: Vec<EmojiCount> = Vec::new();
    for i in 0..entries.len()
        invariant
            (total, replies, reposts, emojis_view(emojis@)) == stats_fold(
                entries@.take(i as int),
                is_root,
            ),
    {
        assert(entries@.take(i + 1).drop_last() =~= entries@.take(i as int));
        let ghost before = emojis@;
        match &entries[i] {
            MetaEntry::Counts { reactions, thread_replies, direct_replies, reposts: rp } => {
                total = *reactions;
                replies = if is_root {
                    *thread_replies
                } else {
                    *direct_replies as u32
                };
                reposts = *rp;
            },
            MetaEntry::Reaction { emoji, count } => {
                if *count > 0 && !str_eq(emoji.as_str(), "+") && emoji.as_str().unicode_len() > 0 {
                    emojis.push(EmojiCount { emoji: emoji.clone(), count: *count });
                    assert(emojis_view(emojis@) =~= emojis_view(before).push((emoji@, *count)));
                }
            },
            MetaEntry::Unknown => {},
        }
    }
    assert(entries@.take(entries.len() as int) =~= entries@);
    (total, replies, reposts, emojis)
}

proof fn lemma_sum_prefix(v: Seq<(Seq<char>, u32)>, i: int)
    requires
        0 <= i <= v.len(),
    ensures
        sum_counts(v.take(i)) <= sum_counts(v),
    decreases v.len() - i,
{
    if i < v.len() {
        assert(v.drop_last().take(i) =~= v.take(i));
        lemma_sum_prefix(v.drop_last(), i);
    } else {
        assert(v.take(i) =~= v);
    }
}

fn sum_emoji_counts(v: &Vec<EmojiCount>) -> (res: u32)
    requires
        sum_counts(emojis_view(v@)) <= u32::MAX,
    ensures
        res == sum_counts(emojis_view(v@)),
{
    let ghost ev = emojis_view(v@);
    let mut sum: u32 = 0;
    for i in 0..v.len()
        invariant
            ev == emojis_view(v@),
            sum_counts(ev) <= u32::MAX,
            sum == sum_counts(ev.take(i as int)),
    {
        assert(ev.take(i + 1).drop_last() =~= ev.take(i as int));
        proof {
            lemma_sum_prefix(ev, i + 1);
        }
        sum = sum + v[i].count;
    }
    assert(ev.take(v.len() as int) =~= ev);
    sum
}

/// The reactions that the markup adds up do not depend on whether the note
/// is a thread's root.
proof fn lemma_fold_reactions_root_free(entries: Seq<MetaEntry>)
    ensures
        stats_fold(entries, true).3 == stats_fold(entries, false).3,
    decreases entries.len(),
{
    if entries.len() > 0 {
        lemma_fold_reactions_root_free(entries.drop_last());
    }
}

/// Whether the reactions other than likes in a note's metadata add up to
/// at most `u32::MAX`, the bound that the stats markup needs.
pub fn stats_sum_fits(meta: &Option<Vec<MetaEntry>>) -> (res: bool)
    ensures
        res == match *meta {
            Some(es) => sum_counts(stats_fold(es@, true).3) <= u32::MAX,
            None => true,
        },
        res == match *meta {
            Some(es) => sum_counts(stats_fold(es@, false).3) <= u32::MAX,
            None => true,
        },
{
    let entries = match meta {
        Some(es) => es,
        None => return true,
    };
    proof {
        lemma_fold_reactions_root_free(entries@);
    }
    let (_, _, _, emojis) = fold_stats(entries, true);
    let ghost ev = emojis_view(emojis@);
    let mut sum: u64 = 0;
    for i in 0..emojis.len()
        invariant
            ev == emojis_view(emojis@),
            ev == stats_fold(entries@, true).3,
            ev == stats_fold(entries@, false).3,
            *meta matches Some(es) && es@ == entries@,
            sum == sum_counts(ev.take(i as int)),
            sum <= u32::MAX,
    {
        assert(ev.take(i + 1).drop_last() =~= ev.take(i as int));
        assert(ev.take(i + 1).last() == ev[i as int]);
        assert(ev[i as int] == emoji_view(emojis@[i as int]));
        sum = sum + emojis[i].count as u64;
        assert(sum == sum_counts(ev.take(i + 1)));
        if sum > u32::MAX as u64 {
            proof {
                lemma_sum_prefix(ev, i + 1);
            }
            return false;
        }
    }
    assert(ev.take(emojis.len() as int) =~= ev);
    true
}

fn push_count_span(html: &mut String, open: &str, n: u64)
    ensures
        final(html)@ == old(html)@ + count_span(open@, n as nat),
{
    if n > 0 {
        html.append(open);
        push_decimal(html, n);
        html.append(STAT_CLOSE);
    }
}

pub open spec fn meta_view(meta: Option<Vec<MetaEntry>>) -> Option<Seq<MetaEntry>> {
    match meta {
        Some(v) => Some(v@),
        None => None,
    }
}

/// The stats markup of a note from its metadata (`None` when the store has
/// none): reply and repost counts, likes, and the five most given other
/// reactions. Replies count the whole thread for a root note.
pub fn build_note_stats_html(meta: &Option<Vec<MetaEntry>>, is_root: bool) -> (res: String)
    requires
        match meta {
            Some(es) => sum_counts(stats_fold(es@, is_root).3) <= u32::MAX,
            None => true,
        },
    ensures
        res@ == stats_spec(meta_view(*meta), is_root),
{
    let entries = match meta {
        Some(es) => es,
        None => return String::new(),
    };
    let (total, replies, reposts, emojis) = fold_stats(entries, is_root);
    if total == 0 && replies == 0 && reposts == 0 {
        return String::new();
    }
    let mut html = String::new();
    html.append(STATS_OPEN);
    push_count_span(&mut html, REPLY_STAT_OPEN, replies as u64);
    push_count_span(&mut html, REPOST_STAT_OPEN, reposts as u64);
    if total > 0 {
        let ghost ev = emojis_view(emojis@);
        let sorted = sort_emojis(&emojis);
        let custom_total = sum_emoji_counts(&emojis);
        let likes: u32 = if custom_total >= total {
            0
        } else {
            total - custom_total
        };
        let ghost head = html@;
        push_count_span(&mut html, LIKE_STAT_OPEN, likes as u64);
        let ghost sv = emojis_view(sorted@);
        let shown: usize = if sorted.len() < 5 {
            sorted.len()
        } else {
            5
        };
        let ghost mid = html@;
        for k in 0..shown
            invariant
                shown <= sorted.len(),
                sv == emojis_view(sorted@),
                html@ == mid + emoji_spans(sv.take(k as int)),
        {
            assert(sv.take(k + 1).drop_last() =~= sv.take(k as int));
            assert(sv.take(k + 1).last() == emoji_view(sorted@[k as int]));
            html.append(EMOJI_STAT_OPEN);
            let e = encode_text(sorted[k].emoji.as_str());
            html.append(e.as_str());
            html.append(EMOJI_STAT_MID);
            push_decimal(&mut html, sorted[k].count as u64);
            html.append(STAT_CLOSE);
        }
        assert(html@ == head + reactions_spec(total, ev));
    }
    html.append("</div>");
    html
}


proof fn lemma_insert_desc_sorted(sorted: Seq<(Seq<char>, u32)>, x: (Seq<char>, u32))
    requires
        forall|i: int, j: int| 0 <= i < j < sorted.len() ==> #[trigger] sorted[i].1 >= #[trigger] sorted[j].1,
    ensures
        insert_desc(sorted, x).len() == sorted.len() + 1,
        forall|i: int, j: int|
            0 <= i < j < insert_desc(sorted, x).len() ==> #[trigger] insert_desc(sorted, x)[i].1
                >= #[trigger] insert_desc(sorted, x)[j].1,
{
    lemma_insert_pos_bound(sorted, x.1);
    let p = insert_pos(sorted, x.1);
    lemma_insert_pos_split(sorted, x.1);
    let r = insert_desc(sorted, x);
    assert forall|i: int, j: int| 0 <= i < j < r.len() implies #[trigger] r[i].1 >= #[trigger] r[j].1 by {
        if i < p && j < p {
            assert(r[i] == sorted[i] && r[j] == sorted[j]);
        } else if i < p && j == p {
            assert(r[i] == sorted[i]);
        } else if i < p && j > p {
            assert(r[i] == sorted[i] && r[j] == sorted[j - 1]);
        } else if i == p {
            assert(r[j] == sorted[j - 1]);
        } else {
            assert(r[i] == sorted[i - 1] && r[j] == sorted[j - 1]);
        }
    }
}

proof fn lemma_insert_pos_split(sorted: Seq<(Seq<char>, u32)>, count: u32)
    ensures
        forall|i: int| 0 <= i < insert_pos(sorted, count) ==> #[trigger] sorted[i].1 >= count,
        insert_pos(sorted, count) < sorted.len() ==> sorted[insert_pos(sorted, count)].1 < count,
    decreases sorted.len(),
{
    lemma_insert_pos_bound(sorted, count);
    if sorted.len() > 0 && sorted[0].1 >= count {
        lemma_insert_pos_split(sorted.drop_first(), count);
        lemma_insert_pos_bound(sorted.drop_first(), count);
        assert forall|i: int| 0 <= i < insert_pos(sorted, count) implies #[trigger] sorted[i].1 >= count by {
            if i > 0 {
                assert(sorted.drop_first()[i - 1] == sorted[i]);
            }
        }
        if insert_pos(sorted, count) < sorted.len() {
            assert(sorted.drop_first()[insert_pos(sorted, count) - 1] == sorted[insert_pos(sorted, count)]);
        }
    }
}

/// The reactions shown are ordered by how many gave them, most first, and
/// none is lost or added by the ordering.
pub proof fn lemma_sort_desc_sorted(v: Seq<(Seq<char>, u32)>)
    ensures
        sort_desc(v).len() == v.len(),
        forall|i: int, j: int| 0 <= i < j < sort_desc(v).len() ==> #[trigger] sort_desc(v)[i].1 >= #[trigger] sort_desc(v)[j].1,
    decreases v.len(),
{
    if v.len() > 0 {
        lemma_sort_desc_sorted(v.drop_last());
        lemma_insert_desc_sorted(sort_desc(v.drop_last()), v.last());
    }
}

} // verus!
