//! The parsed content of a note: the blocks that the store splits a note's
//! text into, as plain values.
use vstd::prelude::*;
use crate::profile::ProfileInfo;

verus! {

/// What a bech32 mention in a note's text refers to.
#[derive(Debug)]
pub enum Mention {
    /// `npub`
    Pubkey([u8; 32]),
    /// `nevent`, with its author when given and its relay hints as written
    Event { id: [u8; 32], author: Option<[u8; 32]>, relays: Vec<String> },
    /// `nprofile`, with its relay hints as written
    Profile { pubkey: [u8; 32], relays: Vec<String> },
    /// `note`
    Note([u8; 32]),
    /// `nrelay`
    Relay,
    /// `nsec`
    Secret,
    /// `naddr`
    Addr,
}

/// One block of a note's content, with its text.
#[derive(Debug)]
pub enum Block {
    /// A bech32 mention; `profile` is the stored profile of the mentioned
    /// key (for `npub` and `nprofile` mentions), when there is one.
    MentionBech32 { text: String, mention: Mention, profile: Option<ProfileInfo> },
    Hashtag(String),
    Url(String),
    Text(String),
    MentionIndex(String),
    Invoice(String),
}

/// The kind of a block.
#[derive(Debug, Clone, Copy, PartialEq, Eq, Structural)]
pub enum BlockType {
    MentionBech32,
    Hashtag,
    Url,
    Text,
    MentionIndex,
    Invoice,
}

pub open spec fn block_type_spec(b: Block) -> BlockType {
    match b {
        Block::MentionBech32 { .. } => BlockType::MentionBech32,
        Block::Hashtag(_) => BlockType::Hashtag,
        Block::Url(_) => BlockType::Url,
        Block::Text(_) => BlockType::Text,
        Block::MentionIndex(_) => BlockType::MentionIndex,
        Block::Invoice(_) => BlockType::Invoice,
    }
}

pub open spec fn block_text(b: Block) -> Seq<char> {
    match b {
        Block::MentionBech32 { text, .. } => text@,
        Block::Hashtag(t) => t@,
        Block::Url(t) => t@,
        Block::Text(t) => t@,
        Block::MentionIndex(t) => t@,
        Block::Invoice(t) => t@,
    }
}

impl Block {
    pub fn blocktype(&self) -> (res: BlockType)
        ensures
            res == block_type_spec(*self),
    {
        match self {
            Block::MentionBech32 { .. } => BlockType::MentionBech32,
            Block::Hashtag(_) => BlockType::Hashtag,
            Block::Url(_) => BlockType::Url,
            Block::Text(_) => BlockType::Text,
            Block::MentionIndex(_) => BlockType::MentionIndex,
            Block::Invoice(_) => BlockType::Invoice,
        }
    }

    pub fn as_str(&self) -> (res: &str)
        ensures
            res@ == block_text(*self),
    {
        match self {
            Block::MentionBech32 { text, .. } => text.as_str(),
            Block::Hashtag(t) => t.as_str(),
            Block::Url(t) => t.as_str(),
            Block::Text(t) => t.as_str(),
            Block::MentionIndex(t) => t.as_str(),
            Block::Invoice(t) => t.as_str(),
        }
    }
}

pub open spec fn blocktype_name_spec(t: BlockType) -> Seq<char> {
    match t {
        BlockType::MentionBech32 => "mention"@,
        BlockType::Hashtag => "hashtag"@,
        BlockType::Url => "url"@,
        BlockType::Text => "text"@,
        BlockType::MentionIndex => "indexed_mention"@,
        BlockType::Invoice => "invoice"@,
    }
}

/// The name of a block kind in the JSON form of a note.
pub fn blocktype_name(blocktype: &BlockType) -> (res: &'static str)
    ensures
        res@ == blocktype_name_spec(*blocktype),
{
    match blocktype {
        BlockType::MentionBech32 => "mention",
        BlockType::Hashtag => "hashtag",
        BlockType::Url => "url",
        BlockType::Text => "text",
        BlockType::MentionIndex => "indexed_mention",
        BlockType::Invoice => "invoice",
    }
}

} // verus!
