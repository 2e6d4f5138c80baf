//! The text of the PNG card of a note: what each content block shows, and
//! the author line.
use vstd::prelude::*;
use crate::abbrev::{abbrev_str, abbrev_spec};
use crate::urls::{is_image_url, is_image_url_spec};
use crate::blocks::{Block, Mention};
use crate::profile::{ProfileInfo, ProfileView, pv, unwrap_or};
use crate::nip19::opt_view;

verus! {

/// A piece of the card's body: text (in the accent colour or not), or an
/// image to load, whose URL stands as accent text when it cannot be shown.
#[derive(Debug)]
pub enum BodySegment {
    Text { text: String, accent: bool },
    Image(String),
}

pub ghost enum SegmentView {
    Text { text: Seq<char>, accent: bool },
    Image(Seq<char>),
}

pub open spec fn segment_view(s: BodySegment) -> SegmentView {
    match s {
        BodySegment::Text { text, accent } => SegmentView::Text { text: text@, accent },
        BodySegment::Image(u) => SegmentView::Image(u@),
    }
}

pub open spec fn segments_view(v: Seq<BodySegment>) -> Seq<SegmentView>
    decreases v.len(),
{
    if v.len() == 0 {
        Seq::empty()
    } else {
        segments_view(v.drop_last()).push(segment_view(v.last()))
    }
}

pub open spec fn accent(t: Seq<char>) -> SegmentView {
    SegmentView::Text { text: t, accent: true }
}

/// How a mentioned user is named: `@` and the abbreviated profile name
/// (`nostrich` when it has none), else the abbreviated mention text.
pub open spec fn mention_name(profile: Option<ProfileView>, text: Seq<char>) -> Seq<char> {
    match profile {
        Some(p) => "@"@ + abbrev_spec(unwrap_or(p.name, "nostrich"@)),
        None => "@"@ + abbrev_spec(text),
    }
}

/// The segments one block shows.
pub open spec fn block_segments(b: Block) -> Seq<SegmentView> {
    match b {
        Block::Url(u) => if is_image_url_spec(u@) {
            seq![SegmentView::Image(u@)]
        } else {
            seq![accent(u@)]
        },
        Block::Hashtag(t) => seq![accent("#"@), accent(t@)],
        Block::MentionBech32 { text, mention, profile } => match mention {
            Mention::Event { .. } | Mention::Note(_) => seq![accent("@"@ + abbrev_spec(text@))],
            Mention::Profile { .. } | Mention::Pubkey(_) => seq![accent(mention_name(pv(profile), text@))],
            Mention::Secret => seq![accent("--redacted--"@)],
            Mention::Relay | Mention::Addr => seq![accent(abbrev_spec(text@))],
        },
        Block::Text(t) => seq![SegmentView::Text { text: t@, accent: false }],
        Block::MentionIndex(t) => seq![SegmentView::Text { text: t@, accent: false }],
        Block::Invoice(t) => seq![SegmentView::Text { text: t@, accent: false }],
    }
}

pub open spec fn body_segments_spec(blocks: Seq<Block>) -> Seq<SegmentView>
    decreases blocks.len(),
{
    if blocks.len() == 0 {
        Seq::empty()
    } else {
        body_segments_spec(blocks.drop_last()) + block_segments(blocks.last())
    }
}

proof fn lemma_segments_push(v: Seq<BodySegment>, s: BodySegment)
    ensures
        segments_view(v.push(s)) == segments_view(v).push(segment_view(s)),
{
    assert(v.push(s).drop_last() =~= v);
}

fn push_segment(out: &mut Vec<BodySegment>, s: BodySegment)
    ensures
        segments_view(final(out)@) == segments_view(old(out)@).push(segment_view(s)),
{
    proof {
        lemma_segments_push(out@, s);
    }
    out.push(s);
}

fn at_abbrev(s: &str) -> (res: String)
    ensures
        res@ == "@"@ + abbrev_spec(s@),
{
    let mut t = String::new();
    t.append("@");
    let a = abbrev_str(s);
    t.append(a.as_str());
    t
}

fn push_block_segments(out: &mut Vec<BodySegment>, b: &Block)
    ensures
        segments_view(final(out)@) == segments_view(old(out)@) + block_segments(*b),
{
    let ghost start = segments_view(out@);
    match b {
        Block::Url(u) => {
            if is_image_url(u.as_str()) {
                push_segment(out, BodySegment::Image(u.clone()));
            } else {
                push_segment(out, BodySegment::Text { text: u.clone(), accent: true });
            }
        },
        Block::Hashtag(t) => {
            push_segment(out, BodySegment::Text { text: "#".to_owned(), accent: true });
            push_segment(out, BodySegment::Text { text: t.clone(), accent: true });
        },
        Block::MentionBech32 { text, mention, profile } => {
            let shown = match mention {
                Mention::Event { .. } | Mention::Note(_) => at_abbrev(text.as_str()),
                Mention::Profile { .. } | Mention::Pubkey(_) => match profile {
                    Some(p) => match &p.name {
                        Some(n) => at_abbrev(n.as_str()),
                        None => at_abbrev("nostrich"),
                    },
                    None => at_abbrev(text.as_str()),
                },
                Mention::Secret => "--redacted--".to_owned(),
                Mention::Relay | Mention::Addr => abbrev_str(text.as_str()),
            };
            push_segment(out, BodySegment::Text { text: shown, accent: true });
        },
        Block::Text(t) => push_segment(out, BodySegment::Text { text: t.clone(), accent: false }),
        Block::MentionIndex(t) => push_segment(out, BodySegment::Text { text: t.clone(), accent: false }),
        Block::Invoice(t) => push_segment(out, BodySegment::Text { text: t.clone(), accent: false }),
    }
    assert(segments_view(out@) =~= start + block_segments(*b));
}

/// The body of a note's card, block by block.
pub fn body_segments(blocks: &Vec<Block>) -> (res: Vec<BodySegment>)
    ensures
        segments_view(res@) == body_segments_spec(blocks@),
{
    let mut out: Vec<BodySegment> = Vec::new();
    assert(segments_view(out@) =~= Seq::<SegmentView>::empty());
    for i in 0..blocks.len()
        invariant
            segments_view(out@) == body_segments_spec(blocks@.take(i as int)),
    {
        assert(blocks@.take(i + 1).drop_last() =~= blocks@.take(i as int));
        push_block_segments(&mut out, &blocks[i]);
    }
    assert(blocks@.take(blocks.len() as int) =~= blocks@);
    out
}

/// The author line of a card: `@` and the profile's name, `nostrich` when
/// it has none.
pub fn username_label(profile: &Option<ProfileInfo>) -> (res: String)
    ensures
        res@ == "@"@ + match pv(*profile) {
            Some(p) => unwrap_or(p.name, "nostrich"@),
            None => "nostrich"@,
        },
{
    let mut s = String::new();
    s.append("@");
    match profile {
        Some(p) => match &p.name {
            Some(n) => s.append(n.as_str()),
            None => s.append("nostrich"),
        },
        None => s.append("nostrich"),
    }
    s
}

} // verus!
