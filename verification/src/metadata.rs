//! Metadata carried in the tags of long-form articles (kinds 30023/30024)
//! and highlights (kind 9802).
use vstd::prelude::*;
use crate::text::{
    trim, trim_seq, has_prefix, starts_with, eq_ignore_ascii_case, str_eq_ignore_ascii_case,
    parse_u64, parse_u64_spec,
};
use crate::note::{TagItem, tag_str, tag_id, get_str, get_id};
use crate::nip19::opt_view;

verus! {

/// At most this many topics are taken from one `t` tag onwards
pub const MAX_TOPICS: usize = 10;

#[derive(Debug)]
pub struct ArticleMetadata {
    pub title: Option<String>,
    pub image: Option<String>,
    pub summary: Option<String>,
    pub published_at: Option<u64>,
    pub topics: Vec<String>,
}

pub ghost struct ArticleMetaView {
    pub title: Option<Seq<char>>,
    pub image: Option<Seq<char>>,
    pub summary: Option<Seq<char>>,
    pub published_at: Option<u64>,
    pub topics: Seq<Seq<char>>,
}

impl View for ArticleMetadata {
    type V = ArticleMetaView;

    open spec fn view(&self) -> ArticleMetaView {
        ArticleMetaView {
            title: opt_view(self.title),
            image: opt_view(self.image),
            summary: opt_view(self.summary),
            published_at: self.published_at,
            topics: self.topics.deep_view(),
        }
    }
}

pub open spec fn has_topic(topics: Seq<Seq<char>>, v: Seq<char>) -> bool {
    exists|j: int| 0 <= j < topics.len() && eq_ignore_ascii_case(#[trigger] topics[j], v)
}

/// Topics after reading the remaining elements `items` of a `t` tag: each
/// non-empty text not already present (ignoring ASCII case) is added, and
/// reading stops once there are `MAX_TOPICS` or more after a text element.
pub open spec fn topics_step(topics: Seq<Seq<char>>, items: Seq<TagItem>) -> Seq<Seq<char>>
    decreases items.len(),
{
    if items.len() == 0 {
        topics
    } else {
        match items[0] {
            TagItem::Id(_) => topics_step(topics, items.drop_first()),
            TagItem::Text(v) => {
                let t2 = if v@.len() > 0 && !has_topic(topics, v@) {
                    topics.push(v@)
                } else {
                    topics
                };
                if t2.len() >= MAX_TOPICS {
                    t2
                } else {
                    topics_step(t2, items.drop_first())
                }
            },
        }
    }
}

/// Article metadata after one more tag.
pub open spec fn article_step(m: ArticleMetaView, tag: Seq<TagItem>) -> ArticleMetaView {
    match tag_str(tag, 0) {
        None => m,
        Some(k) => if k == "title"@ && tag_str(tag, 1) is Some {
            ArticleMetaView { title: tag_str(tag, 1), ..m }
        } else if k == "image"@ && tag_str(tag, 1) is Some {
            ArticleMetaView { image: tag_str(tag, 1), ..m }
        } else if k == "summary"@ && tag_str(tag, 1) is Some {
            ArticleMetaView { summary: tag_str(tag, 1), ..m }
        } else if k == "published_at"@ && tag_str(tag, 1) is Some && parse_u64_spec(
            tag_str(tag, 1)->0,
        ) is Some {
            ArticleMetaView { published_at: parse_u64_spec(tag_str(tag, 1)->0), ..m }
        } else if k == "t"@ {
            ArticleMetaView { topics: topics_step(m.topics, tag.drop_first()), ..m }
        } else {
            m
        },
    }
}

pub open spec fn article_meta_spec(tags: Seq<Vec<TagItem>>) -> ArticleMetaView
    decreases tags.len(),
{
    if tags.len() == 0 {
        ArticleMetaView {
            title: None,
            image: None,
            summary: None,
            published_at: None,
            topics: Seq::empty(),
        }
    } else {
        article_step(article_meta_spec(tags.drop_last()), tags.last()@)
    }
}

fn has_topic_exec(topics: &Vec<String>, v: &str) -> (res: bool)
    ensures
        res == has_topic(topics.deep_view(), v@),
{
    let mut j: usize = 0;
    while j < topics.len()
        invariant
            j <= topics.len(),
            forall|k: int| 0 <= k < j ==> !eq_ignore_ascii_case(#[trigger] topics.deep_view()[k], v@),
        decreases topics.len() - j,
    {
        if str_eq_ignore_ascii_case(topics[j].as_str(), v) {
            assert(topics.deep_view()[j as int] == topics@[j as int]@);
            return true;
        }
        j = j + 1;
    }
    false
}

/// Reads the topics of a `t` tag (its elements after the first).
fn read_topics(topics: &mut Vec<String>, tag: &Vec<TagItem>)
    requires
        tag.len() > 0,
    ensures
        final(topics).deep_view() == topics_step(old(topics).deep_view(), tag@.drop_first()),
{
    let ghost target = topics_step(topics.deep_view(), tag@.drop_first());
    assert(tag@.skip(1) =~= tag@.drop_first());
    let mut k: usize = 1;
    while k < tag.len()
        invariant
            1 <= k <= tag.len(),
            target == topics_step(old(topics).deep_view(), tag@.drop_first()),
            topics_step(topics.deep_view(), tag@.skip(k as int)) == target,
        decreases tag.len() - k,
    {
        let ghost rest = tag@.skip(k as int);
        let ghost before = topics.deep_view();
        assert(rest.drop_first() =~= tag@.skip(k + 1));
        assert(rest[0] == tag@[k as int]);
        match &tag[k] {
            TagItem::Id(_) => {},
            TagItem::Text(value) => {
                if value.as_str().unicode_len() > 0 && !has_topic_exec(topics, value.as_str()) {
                    topics.push(value.clone());
                    assert(topics.deep_view() =~= before.push(value@));
                } else {
                    assert(topics.deep_view() =~= before);
                }
                if topics.len() >= MAX_TOPICS {
                    assert(topics_step(before, rest) == topics.deep_view());
                    return;
                }
            },
        }
        k = k + 1;
    }
    assert(tag@.skip(k as int).len() == 0);
}

/// Reads the metadata of a long-form article from its tags.
pub fn extract_article_metadata(tags: &Vec<Vec<TagItem>>) -> (res: ArticleMetadata)
    ensures
        res@ == article_meta_spec(tags@),
{
    let mut meta = ArticleMetadata {
        title: None,
        image: None,
        summary: None,
        published_at: None,
        topics: Vec::new(),
    };
    assert(meta.topics.deep_view() =~= Seq::<Seq<char>>::empty());
    assert(tags@.take(0).len() == 0);
    assert(meta@ == article_meta_spec(tags@.take(0)));
    for i in 0..tags.len()
        invariant
            meta@ == article_meta_spec(tags@.take(i as int)),
    {
        assert(tags@.take(i + 1).drop_last() =~= tags@.take(i as int));
        let tag = &tags[i];
        match get_str(tag, 0) {
            None => {},
            Some(kind) => {
                let k = kind.as_str();
                let value = get_str(tag, 1);
                if crate::text::str_eq(k, "title") && value.is_some() {
                    meta.title = Some(value.unwrap().clone());
                } else if crate::text::str_eq(k, "image") && value.is_some() {
                    meta.image = Some(value.unwrap().clone());
                } else if crate::text::str_eq(k, "summary") && value.is_some() {
                    meta.summary = Some(value.unwrap().clone());
                } else if crate::text::str_eq(k, "published_at") && value.is_some() && parse_u64(
                    value.unwrap().as_str(),
                ).is_some() {
                    meta.published_at = parse_u64(value.unwrap().as_str());
                } else if crate::text::str_eq(k, "t") {
                    read_topics(&mut meta.topics, tag);
                }
            },
        }
    }
    assert(tags@.take(tags.len() as int) =~= tags@);
    meta
}

/// Metadata of a NIP-84 highlight (kind 9802): where the highlighted
/// passage comes from and what the highlighter added.
#[derive(Debug)]
pub struct HighlightMetadata {
    /// Surrounding text (`context` tag)
    pub context: Option<String>,
    /// The highlighter's comment (`comment` tag)
    pub comment: Option<String>,
    /// A web page source (`r` tag)
    pub source_url: Option<String>,
    /// A note source (`e` tag)
    pub source_event_id: Option<[u8; 32]>,
    /// An article source address, `30023:` or `30024:` (`a` tag)
    pub source_article_addr: Option<String>,
}

pub ghost struct HighlightMetaView {
    pub context: Option<Seq<char>>,
    pub comment: Option<Seq<char>>,
    pub source_url: Option<Seq<char>>,
    pub source_event_id: Option<[u8; 32]>,
    pub source_article_addr: Option<Seq<char>>,
}

impl View for HighlightMetadata {
    type V = HighlightMetaView;

    open spec fn view(&self) -> HighlightMetaView {
        HighlightMetaView {
            context: opt_view(self.context),
            comment: opt_view(self.comment),
            source_url: opt_view(self.source_url),
            source_event_id: self.source_event_id,
            source_article_addr: opt_view(self.source_article_addr),
        }
    }
}

pub open spec fn highlight_step(m: HighlightMetaView, tag: Seq<TagItem>) -> HighlightMetaView {
    match tag_str(tag, 0) {
        None => m,
        Some(k) => {
            let v = tag_str(tag, 1);
            if k == "context"@ {
                if v is Some && trim_seq(v->0).len() > 0 {
                    HighlightMetaView { context: v, ..m }
                } else {
                    m
                }
            } else if k == "comment"@ {
                if v is Some && trim_seq(v->0).len() > 0 {
                    HighlightMetaView { comment: v, ..m }
                } else {
                    m
                }
            } else if k == "r"@ {
                if v is Some && (has_prefix(trim_seq(v->0), "http://"@) || has_prefix(
                    trim_seq(v->0),
                    "https://"@,
                )) {
                    HighlightMetaView { source_url: Some(trim_seq(v->0)), ..m }
                } else {
                    m
                }
            } else if k == "e"@ {
                if tag_id(tag, 1) is Some {
                    HighlightMetaView { source_event_id: tag_id(tag, 1), ..m }
                } else {
                    m
                }
            } else if k == "a"@ {
                if v is Some && (has_prefix(trim_seq(v->0), "30023:"@) || has_prefix(
                    trim_seq(v->0),
                    "30024:"@,
                )) {
                    HighlightMetaView { source_article_addr: Some(trim_seq(v->0)), ..m }
                } else {
                    m
                }
            } else {
                m
            }
        },
    }
}

pub open spec fn highlight_meta_spec(tags: Seq<Vec<TagItem>>) -> HighlightMetaView
    decreases tags.len(),
{
    if tags.len() == 0 {
        HighlightMetaView {
            context: None,
            comment: None,
            source_url: None,
            source_event_id: None,
            source_article_addr: None,
        }
    } else {
        highlight_step(highlight_meta_spec(tags.drop_last()), tags.last()@)
    }
}

/// Reads NIP-84 highlight metadata from a highlight's tags.
pub fn extract_highlight_metadata(tags: &Vec<Vec<TagItem>>) -> (res: HighlightMetadata)
    ensures
        res@ == highlight_meta_spec(tags@),
{
    let mut meta = HighlightMetadata {
        context: None,
        comment: None,
        source_url: None,
        source_event_id: None,
        source_article_addr: None,
    };
    assert(tags@.take(0).len() == 0);
    assert(meta@ == highlight_meta_spec(tags@.take(0)));
    for i in 0..tags.len()
        invariant
            meta@ == highlight_meta_spec(tags@.take(i as int)),
    {
        assert(tags@.take(i + 1).drop_last() =~= tags@.take(i as int));
        let tag = &tags[i];
        match get_str(tag, 0) {
            None => {},
            Some(name) => {
                let k = name.as_str();
                let v = get_str(tag, 1);
                if crate::text::str_eq(k, "context") {
                    if let Some(value) = v {
                        if trim(value.as_str()).as_str().unicode_len() > 0 {
                            meta.context = Some(value.clone());
                        }
                    }
                } else if crate::text::str_eq(k, "comment") {
                    if let Some(value) = v {
                        if trim(value.as_str()).as_str().unicode_len() > 0 {
                            meta.comment = Some(value.clone());
                        }
                    }
                } else if crate::text::str_eq(k, "r") {
                    if let Some(value) = v {
                        let trimmed = trim(value.as_str());
                        if starts_with(trimmed.as_str(), "http://") || starts_with(
                            trimmed.as_str(),
                            "https://",
                        ) {
                            meta.source_url = Some(trimmed);
                        }
                    }
                } else if crate::text::str_eq(k, "e") {
                    if let Some(id) = get_id(tag, 1) {
                        meta.source_event_id = Some(id);
                    }
                } else if crate::text::str_eq(k, "a") {
                    if let Some(value) = v {
                        let trimmed = trim(value.as_str());
                        if starts_with(trimmed.as_str(), "30023:") || starts_with(
                            trimmed.as_str(),
                            "30024:",
                        ) {
                            meta.source_article_addr = Some(trimmed);
                        }
                    }
                }
            },
        }
    }
    assert(tags@.take(tags.len() as int) =~= tags@);
    meta
}

} // verus!
