//! Plain-value model of what the library reads from a stored nostr note:
//! its tags and its parsed content blocks.
use vstd::prelude::*;

verus! {

/// One element of a note tag: either text or a 32-byte id that the store
/// keeps packed.
#[derive(Clone, Debug, PartialEq, Eq)]
pub enum TagItem {
    Text(String),
    Id([u8; 32]),
}

/// The text of element `i` of a tag, when that element exists and is text
/// (`Tag::get_str`).
pub open spec fn tag_str(tag: Seq<TagItem>, i: int) -> Option<Seq<char>> {
    if 0 <= i < tag.len() {
        match tag[i] {
            TagItem::Text(s) => Some(s@),
            TagItem::Id(_) => None,
        }
    } else {
        None
    }
}

/// The id of element `i` of a tag, when that element exists and is an id
/// (`Tag::get_id`).
pub open spec fn tag_id(tag: Seq<TagItem>, i: int) -> Option<[u8; 32]> {
    if 0 <= i < tag.len() {
        match tag[i] {
            TagItem::Text(_) => None,
            TagItem::Id(id) => Some(id),
        }
    } else {
        None
    }
}

pub fn get_str(tag: &Vec<TagItem>, i: usize) -> (res: Option<&String>)
    ensures
        match res {
            Some(s) => tag_str(tag@, i as int) == Some(s@),
            None => tag_str(tag@, i as int) is None,
        },
{
    if i < tag.len() {
        match &tag[i] {
            TagItem::Text(s) => Some(s),
            TagItem::Id(_) => None,
        }
    } else {
        None
    }
}

pub fn get_id(tag: &Vec<TagItem>, i: usize) -> (res: Option<[u8; 32]>)
    ensures
        res == tag_id(tag@, i as int),
{
    if i < tag.len() {
        match &tag[i] {
            TagItem::Text(_) => None,
            TagItem::Id(id) => Some(*id),
        }
    } else {
        None
    }
}

/// `get_str(tag, i)` compared with a literal.
pub fn tag_str_is(tag: &Vec<TagItem>, i: usize, lit: &str) -> (res: bool)
    ensures
        res == (tag_str(tag@, i as int) == Some(lit@)),
{
    match get_str(tag, i) {
        Some(s) => crate::text::str_eq(s.as_str(), lit),
        None => false,
    }
}

/// A stored note as the pages read it.
#[derive(Debug)]
pub struct NoteData {
    /// The store's key for the note
    pub key: u64,
    pub id: [u8; 32],
    pub pubkey: [u8; 32],
    pub created_at: u64,
    pub kind: u32,
    pub content: String,
    pub tags: Vec<Vec<TagItem>>,
}

} // verus!
