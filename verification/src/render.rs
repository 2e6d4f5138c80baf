//! What a page needs before it can be rendered: the keys of the note and
//! profile in the local store, what is still missing and must be fetched,
//! and how arriving notes complete the picture.
use vstd::prelude::*;
use crate::error::Error;
use crate::nip19::{Nip19Ref, Nip19View, clone_strings, relays_of, nip19_relays};
use crate::escape::{hex_encode, hex_spec};
use crate::text::{decimal, push_decimal};

verus! {

/// How many recent notes a profile page shows
pub const PROFILE_FEED_RECENT_LIMIT: usize = 12;

/// How many direct replies a note page shows
pub const DIRECT_REPLY_LIMIT: i32 = 50;

/// Consecutive empty waits after which completion gives up
pub const MAX_CONSECUTIVE_TIMEOUTS: u32 = 5;

/// The note of a page: missing (by id), missing (by address), or stored
/// under a key.
#[derive(Debug)]
pub enum NoteRenderData {
    Missing([u8; 32]),
    Address { author: [u8; 32], kind: u64, identifier: String },
    Note(u64),
}

/// The profile of a page: missing (by public key) or stored under a key.
#[derive(Clone, Copy, Debug, PartialEq, Eq)]
pub enum ProfileRenderData {
    Missing([u8; 32]),
    Profile(u64),
}

#[derive(Debug)]
pub struct NoteAndProfileRenderData {
    pub note_rd: NoteRenderData,
    pub profile_rd: Option<ProfileRenderData>,
    /// Relays the note was found on
    pub source_relays: Vec<String>,
}

/// Primary keys for the data a page renders
#[derive(Debug)]
pub enum RenderData {
    Profile(Option<ProfileRenderData>),
    Note(NoteAndProfileRenderData),
}

pub open spec fn note_needed(n: NoteRenderData) -> bool {
    !(n is Note)
}

pub open spec fn profile_needed(p: Option<ProfileRenderData>) -> bool {
    match p {
        Some(ProfileRenderData::Profile(_)) => false,
        _ => true,
    }
}

pub open spec fn rd_needs_profile(rd: RenderData) -> bool {
    match rd {
        RenderData::Profile(p) => profile_needed(p),
        RenderData::Note(n) => profile_needed(n.profile_rd),
    }
}

pub open spec fn rd_needs_note(rd: RenderData) -> bool {
    match rd {
        RenderData::Profile(_) => false,
        RenderData::Note(n) => note_needed(n.note_rd),
    }
}

pub open spec fn rd_complete(rd: RenderData) -> bool {
    !rd_needs_profile(rd) && !rd_needs_note(rd)
}

impl NoteRenderData {
    pub fn needs_note(&self) -> (res: bool)
        ensures
            res == note_needed(*self),
    {
        match self {
            NoteRenderData::Missing(_) => true,
            NoteRenderData::Address { .. } => true,
            NoteRenderData::Note(_) => false,
        }
    }
}

impl NoteAndProfileRenderData {
    pub fn new(note_rd: NoteRenderData, profile_rd: Option<ProfileRenderData>) -> (res: Self)
        ensures
            res.note_rd == note_rd,
            res.profile_rd == profile_rd,
            res.source_relays@.len() == 0,
    {
        Self { note_rd, profile_rd, source_relays: Vec::new() }
    }
}

impl ProfileRenderData {
    pub fn needs_profile(&self) -> (res: bool)
        ensures
            res == (*self is Missing),
    {
        match self {
            ProfileRenderData::Missing(_) => true,
            ProfileRenderData::Profile(_) => false,
        }
    }
}

impl RenderData {
    pub fn note(note_rd: NoteRenderData, profile_rd: Option<ProfileRenderData>) -> (res: Self)
        ensures
            res matches RenderData::Note(n) && n.note_rd == note_rd && n.profile_rd == profile_rd
                && n.source_relays@.len() == 0,
    {
        Self::Note(NoteAndProfileRenderData::new(note_rd, profile_rd))
    }

    pub fn profile(profile_rd: Option<ProfileRenderData>) -> (res: Self)
        ensures
            res == RenderData::Profile(profile_rd),
    {
        Self::Profile(profile_rd)
    }

    pub fn is_complete(&self) -> (res: bool)
        ensures
            res == rd_complete(*self),
    {
        !(self.needs_profile() || self.needs_note())
    }

    pub fn note_render_data(&self) -> (res: Option<&NoteRenderData>)
        ensures
            match *self {
                RenderData::Note(n) => res == Some(&n.note_rd),
                RenderData::Profile(_) => res is None,
            },
    {
        match self {
            Self::Note(nrd) => Some(&nrd.note_rd),
            Self::Profile(_) => None,
        }
    }

    pub fn profile_render_data(&self) -> (res: Option<ProfileRenderData>)
        ensures
            res == match *self {
                RenderData::Note(n) => n.profile_rd,
                RenderData::Profile(p) => p,
            },
    {
        match self {
            Self::Note(nrd) => nrd.profile_rd,
            Self::Profile(prd) => *prd,
        }
    }

    pub fn needs_profile(&self) -> (res: bool)
        ensures
            res == rd_needs_profile(*self),
    {
        let p = self.profile_render_data();
        match p {
            Some(prd) => prd.needs_profile(),
            None => true,
        }
    }

    pub fn needs_note(&self) -> (res: bool)
        ensures
            res == rd_needs_note(*self),
    {
        match self {
            RenderData::Profile(_pkey) => false,
            RenderData::Note(rd) => rd.note_rd.needs_note(),
        }
    }

    /// Records that the profile is stored under `key`.
    pub fn set_profile_key(&mut self, key: u64)
        ensures
            match *old(self) {
                RenderData::Profile(_) => *final(self) == RenderData::Profile(
                    Some(ProfileRenderData::Profile(key)),
                ),
                RenderData::Note(n) => *final(self) matches RenderData::Note(m) && m.note_rd
                    == n.note_rd && m.profile_rd == Some(ProfileRenderData::Profile(key))
                    && m.source_relays == n.source_relays,
            },
    {
        match self {
            RenderData::Profile(pk) => {
                *pk = Some(ProfileRenderData::Profile(key));
            },
            RenderData::Note(note_rd) => {
                note_rd.profile_rd = Some(ProfileRenderData::Profile(key));
            },
        };
    }

    /// Records that the note is stored under `key`; a profile page has no
    /// note and is left as it is.
    pub fn set_note_key(&mut self, key: u64)
        ensures
            match *old(self) {
                RenderData::Profile(p) => *final(self) == RenderData::Profile(p),
                RenderData::Note(n) => *final(self) matches RenderData::Note(m) && m.note_rd
                    == NoteRenderData::Note(key) && m.profile_rd == n.profile_rd
                    && m.source_relays == n.source_relays,
            },
    {
        match self {
            RenderData::Profile(_pk) => {},
            RenderData::Note(note) => {
                note.note_rd = NoteRenderData::Note(key);
            },
        };
    }
}

// ---------------------------------------------------------------------
// Fetching what is missing
// ---------------------------------------------------------------------

/// A query for a note by address: author, kind and, when the identifier is
/// not empty, a `d` tag equal to it; at most one result.
#[derive(Debug)]
pub struct AddressQuery {
    pub author: [u8; 32],
    pub kind: u64,
    pub d_tag: Option<String>,
}

pub open spec fn address_query_spec(q: AddressQuery, author: [u8; 32], kind: u64, identifier: Seq<char>) -> bool {
    q.author == author && q.kind == kind && match q.d_tag {
        Some(d) => identifier.len() > 0 && d@ == identifier,
        None => identifier.len() == 0,
    }
}

/// The query that finds an addressable note.
pub fn build_address_filter(author: &[u8; 32], kind: u64, identifier: &str) -> (res: AddressQuery)
    ensures
        address_query_spec(res, *author, kind, identifier@),
{
    let d_tag = if identifier.is_empty() {
        None
    } else {
        Some(identifier.to_owned())
    };
    AddressQuery { author: *author, kind, d_tag }
}

pub open spec fn coordinate_tag_spec(author: [u8; 32], kind: u64, identifier: Seq<char>) -> Seq<char> {
    decimal(kind as nat) + ":"@ + hex_spec(author@) + ":"@ + identifier
}

/// The `a` tag value of an address: `kind:author-hex:identifier`.
pub fn coordinate_tag(author: &[u8; 32], kind: u64, identifier: &str) -> (res: String)
    ensures
        res@ == coordinate_tag_spec(*author, kind, identifier@),
{
    let mut s = String::new();
    push_decimal(&mut s, kind);
    s.append(":");
    let h = hex_encode(author.as_slice());
    s.append(h.as_str());
    s.append(":");
    s.append(identifier);
    s
}

/// Something the store lacks and relays are asked for.
#[derive(Debug)]
pub enum FetchRequest {
    /// The note with this id (at most one)
    NoteById([u8; 32]),
    /// The addressable note found by this query
    Address(AddressQuery),
    /// The profile (kind 0) of this author (at most one)
    ProfileOf([u8; 32]),
}

pub open spec fn note_request_spec(n: NoteRenderData, r: FetchRequest) -> bool {
    match n {
        NoteRenderData::Missing(id) => r == FetchRequest::NoteById(id),
        NoteRenderData::Address { author, kind, identifier } => r matches FetchRequest::Address(q)
            && address_query_spec(q, author, kind, identifier@),
        NoteRenderData::Note(_) => false,
    }
}

/// The requests that would complete `rd`, in order: the note (when
/// missing), then the profile (when missing). None when `rd` is complete.
pub open spec fn requests_spec(rd: RenderData, reqs: Seq<FetchRequest>) -> bool {
    let note_part: Option<NoteRenderData> = match rd {
        RenderData::Note(n) => if note_needed(n.note_rd) {
            Some(n.note_rd)
        } else {
            None
        },
        RenderData::Profile(_) => None,
    };
    let profile_part: Option<[u8; 32]> = match (match rd {
        RenderData::Note(n) => n.profile_rd,
        RenderData::Profile(p) => p,
    }) {
        Some(ProfileRenderData::Missing(pk)) => Some(pk),
        _ => None,
    };
    if rd_complete(rd) {
        reqs.len() == 0
    } else {
        match (note_part, profile_part) {
            (Some(n), Some(pk)) => reqs.len() == 2 && note_request_spec(n, reqs[0]) && reqs[1]
                == FetchRequest::ProfileOf(pk),
            (Some(n), None) => reqs.len() == 1 && note_request_spec(n, reqs[0]),
            (None, Some(pk)) => reqs.len() == 1 && reqs[0] == FetchRequest::ProfileOf(pk),
            (None, None) => reqs.len() == 0,
        }
    }
}

/// What to ask relays for so that `render_data` becomes complete.
pub fn renderdata_to_filter(render_data: &RenderData) -> (res: Vec<FetchRequest>)
    ensures
        requests_spec(*render_data, res@),
{
    if render_data.is_complete() {
        return Vec::new();
    }
    let mut reqs: Vec<FetchRequest> = Vec::new();
    match render_data.note_render_data() {
        Some(NoteRenderData::Missing(note_id)) => {
            reqs.push(FetchRequest::NoteById(*note_id));
        },
        Some(NoteRenderData::Address { author, kind, identifier }) => {
            reqs.push(FetchRequest::Address(build_address_filter(author, *kind, identifier.as_str())));
        },
        None | Some(NoteRenderData::Note(_)) => {},
    }
    match render_data.profile_render_data() {
        Some(ProfileRenderData::Missing(pubkey)) => {
            reqs.push(FetchRequest::ProfileOf(pubkey));
        },
        None | Some(ProfileRenderData::Profile(_)) => {},
    }
    reqs
}

/// The requests that would complete `render_data`, as
/// `renderdata_to_filter` gives them, or `NothingToFetch` exactly when
/// there are none.
pub fn completion_requests(render_data: &RenderData) -> (res: Result<Vec<FetchRequest>, Error>)
    ensures
        match res {
            Ok(reqs) => reqs@.len() > 0 && requests_spec(*render_data, reqs@),
            Err(e) => e == Error::NothingToFetch && requests_spec(*render_data, Seq::empty()),
        },
{
    let reqs = renderdata_to_filter(render_data);
    if reqs.len() == 0 {
        assert(reqs@ =~= Seq::<FetchRequest>::empty());
        Err(Error::NothingToFetch)
    } else {
        Ok(reqs)
    }
}

/// A note that arrived while completing: not readable from the store, a
/// profile note (with the profile key it yields, when there is one), or
/// another note stored under a key.
#[derive(Clone, Copy, Debug, PartialEq, Eq)]
pub enum Arrived {
    Unreadable,
    Profile(Option<u64>),
    Note(u64),
}

/// `rd` after one arrived note.
pub open spec fn apply_one(rd: RenderData, a: Arrived) -> RenderData {
    match a {
        Arrived::Unreadable => rd,
        Arrived::Profile(None) => rd,
        Arrived::Profile(Some(k)) => match rd {
            RenderData::Profile(_) => RenderData::Profile(Some(ProfileRenderData::Profile(k))),
            RenderData::Note(n) => RenderData::Note(
                NoteAndProfileRenderData {
                    profile_rd: Some(ProfileRenderData::Profile(k)),
                    ..n
                },
            ),
        },
        Arrived::Note(k) => match rd {
            RenderData::Profile(p) => RenderData::Profile(p),
            RenderData::Note(n) => RenderData::Note(
                NoteAndProfileRenderData { note_rd: NoteRenderData::Note(k), ..n },
            ),
        },
    }
}

pub open spec fn apply_all(rd: RenderData, arrived: Seq<Arrived>) -> RenderData
    decreases arrived.len(),
{
    if arrived.len() == 0 {
        rd
    } else {
        apply_one(apply_all(rd, arrived.drop_last()), arrived.last())
    }
}

/// The state of completing a page's data from a stream of arriving notes.
pub struct Completion {
    pub consecutive_timeouts: u32,
}

impl Completion {
    pub fn new() -> (res: Self)
        ensures
            res.consecutive_timeouts == 0,
    {
        Completion { consecutive_timeouts: 0 }
    }

    /// Whether to keep waiting: the data is incomplete and fewer than
    /// `MAX_CONSECUTIVE_TIMEOUTS` waits in a row came back empty.
    pub fn should_wait(&self, rd: &RenderData) -> (res: bool)
        ensures
            res == (!rd_complete(*rd) && self.consecutive_timeouts < MAX_CONSECUTIVE_TIMEOUTS),
    {
        if !rd.needs_note() && !rd.needs_profile() {
            return false;
        }
        self.consecutive_timeouts < MAX_CONSECUTIVE_TIMEOUTS
    }

    /// A wait came back empty.
    pub fn on_timeout(&mut self)
        ensures
            final(self).consecutive_timeouts == (if old(self).consecutive_timeouts
                < MAX_CONSECUTIVE_TIMEOUTS {
                old(self).consecutive_timeouts + 1
            } else {
                old(self).consecutive_timeouts as int
            }),
    {
        if self.consecutive_timeouts < MAX_CONSECUTIVE_TIMEOUTS {
            self.consecutive_timeouts = self.consecutive_timeouts + 1;
        }
    }

    /// A batch of notes arrived: records each in `rd` and says whether to
    /// stop (a batch of at least two notes that left `rd` complete).
    pub fn on_notes(&mut self, rd: &mut RenderData, arrived: &Vec<Arrived>) -> (stop: bool)
        ensures
            final(self).consecutive_timeouts == 0,
            *final(rd) == apply_all(*old(rd), arrived@),
            stop == (arrived@.len() >= 2 && rd_complete(*final(rd))),
    {
        self.consecutive_timeouts = 0;
        let ghost start = *rd;
        for i in 0..arrived.len()
            invariant
                *rd == apply_all(start, arrived@.take(i as int)),
        {
            assert(arrived@.take(i + 1).drop_last() =~= arrived@.take(i as int));
            match arrived[i] {
                Arrived::Unreadable => {},
                Arrived::Profile(None) => {},
                Arrived::Profile(Some(k)) => {
                    rd.set_profile_key(k);
                },
                Arrived::Note(k) => {
                    rd.set_note_key(k);
                },
            }
        }
        assert(arrived@.take(arrived.len() as int) =~= arrived@);
        arrived.len() >= 2 && rd.is_complete()
    }
}

/// Arriving notes never take away what a page already had.
pub proof fn lemma_apply_all_keeps_found(rd: RenderData, arrived: Seq<Arrived>)
    ensures
        !rd_needs_note(rd) ==> !rd_needs_note(apply_all(rd, arrived)),
        !rd_needs_profile(rd) ==> !rd_needs_profile(apply_all(rd, arrived)),
    decreases arrived.len(),
{
    if arrived.len() > 0 {
        lemma_apply_all_keeps_found(rd, arrived.drop_last());
    }
}

// ---------------------------------------------------------------------
// Locating render data in the store
// ---------------------------------------------------------------------

/// How to look for the note an identifier names.
#[derive(Debug)]
pub enum NoteLookup {
    ById([u8; 32]),
    ByAddress(AddressQuery),
    NoNote,
}

pub open spec fn note_lookup_spec(n: Nip19View, l: NoteLookup) -> bool {
    match n {
        Nip19View::Event { id, .. } => l == NoteLookup::ById(id),
        Nip19View::EventId(id) => l == NoteLookup::ById(id),
        Nip19View::Coordinate { kind, pubkey, identifier, .. } => l matches NoteLookup::ByAddress(
            q,
        ) && address_query_spec(q, pubkey, kind as u64, identifier),
        _ => l is NoNote,
    }
}

/// The note lookup that an identifier calls for.
pub fn note_lookup(n: &Nip19Ref) -> (res: NoteLookup)
    ensures
        note_lookup_spec(n@, res),
{
    match n {
        Nip19Ref::Event(id, _, _, _) => NoteLookup::ById(*id),
        Nip19Ref::EventId(id) => NoteLookup::ById(*id),
        Nip19Ref::Coordinate(kind, pubkey, identifier, _) => NoteLookup::ByAddress(
            build_address_filter(pubkey, *kind as u64, identifier.as_str()),
        ),
        _ => NoteLookup::NoNote,
    }
}

/// A note the store has: its key (when it has one) and author.
#[derive(Clone, Copy, Debug, PartialEq, Eq)]
pub struct FoundNote {
    pub key: Option<u64>,
    pub pubkey: [u8; 32],
}

/// The author whose profile a page needs: the found note's author, else the
/// author an `nevent` names; the coordinate's author; the profile's key.
pub open spec fn profile_pubkey_spec(n: Nip19View, found: Option<FoundNote>) -> Option<[u8; 32]> {
    match n {
        Nip19View::Event { author, .. } => match found {
            Some(f) => Some(f.pubkey),
            None => author,
        },
        Nip19View::EventId(_) => match found {
            Some(f) => Some(f.pubkey),
            None => None,
        },
        Nip19View::Coordinate { pubkey, .. } => Some(pubkey),
        Nip19View::Profile { pubkey, .. } => Some(pubkey),
        Nip19View::Pubkey(pk) => Some(pk),
        Nip19View::Secret(_) => None,
    }
}

pub fn profile_pubkey(n: &Nip19Ref, found: &Option<FoundNote>) -> (res: Option<[u8; 32]>)
    ensures
        res == profile_pubkey_spec(n@, *found),
{
    match n {
        Nip19Ref::Event(_, author, _, _) => match found {
            Some(f) => Some(f.pubkey),
            None => *author,
        },
        Nip19Ref::EventId(_) => match found {
            Some(f) => Some(f.pubkey),
            None => None,
        },
        Nip19Ref::Coordinate(_, pubkey, _, _) => Some(*pubkey),
        Nip19Ref::Profile(pubkey, _) => Some(*pubkey),
        Nip19Ref::Pubkey(pk) => Some(*pk),
        Nip19Ref::Secret(_) => None,
    }
}

pub open spec fn profile_rd_spec(pk: Option<[u8; 32]>, profile_key: Option<u64>) -> Option<ProfileRenderData> {
    match pk {
        Some(p) => match profile_key {
            Some(k) => Some(ProfileRenderData::Profile(k)),
            None => Some(ProfileRenderData::Missing(p)),
        },
        None => None,
    }
}

/// The render data of the page an identifier names, given what the store
/// holds: the note found by `note_lookup` (when any) and the key of the
/// profile of `profile_pubkey` (when stored). Secret keys cannot be
/// rendered.
pub open spec fn render_data_spec(
    n: Nip19View,
    found: Option<FoundNote>,
    profile_key: Option<u64>,
    res: Result<RenderData, Error>,
) -> bool {
    let prd = profile_rd_spec(profile_pubkey_spec(n, found), profile_key);
    let found_key: Option<u64> = match found {
        Some(f) => f.key,
        None => None,
    };
    match n {
        Nip19View::Event { id, .. } => res matches Ok(RenderData::Note(x)) && x.profile_rd == prd
            && x.source_relays@.len() == 0 && x.note_rd == match found_key {
            Some(k) => NoteRenderData::Note(k),
            None => NoteRenderData::Missing(id),
        },
        Nip19View::EventId(id) => res matches Ok(RenderData::Note(x)) && x.profile_rd == prd
            && x.source_relays@.len() == 0 && x.note_rd == match found_key {
            Some(k) => NoteRenderData::Note(k),
            None => NoteRenderData::Missing(id),
        },
        Nip19View::Coordinate { kind, pubkey, identifier, .. } => res matches Ok(
            RenderData::Note(x),
        ) && x.profile_rd == prd && x.source_relays@.len() == 0 && match found_key {
            Some(k) => x.note_rd == NoteRenderData::Note(k),
            None => x.note_rd matches NoteRenderData::Address { author, kind: k2, identifier: i2 }
                && author == pubkey && k2 == kind as u64 && i2@ == identifier,
        },
        Nip19View::Profile { .. } => res == Ok::<RenderData, Error>(RenderData::Profile(prd)),
        Nip19View::Pubkey(_) => res == Ok::<RenderData, Error>(RenderData::Profile(prd)),
        Nip19View::Secret(_) => res == Err::<RenderData, Error>(Error::CantRender),
    }
}

/// Assembles the render data of a page from what the store holds.
pub fn get_render_data(n: &Nip19Ref, found: &Option<FoundNote>, profile_key: Option<u64>) -> (res:
    Result<RenderData, Error>)
    ensures
        render_data_spec(n@, *found, profile_key, res),
{
    let pk = profile_pubkey(n, found);
    let profile_rd = match pk {
        Some(p) => match profile_key {
            Some(k) => Some(ProfileRenderData::Profile(k)),
            None => Some(ProfileRenderData::Missing(p)),
        },
        None => None,
    };
    let found_key: Option<u64> = match found {
        Some(f) => f.key,
        None => None,
    };
    match n {
        Nip19Ref::Event(id, _, _, _) | Nip19Ref::EventId(id) => {
            let note_rd = match found_key {
                Some(k) => NoteRenderData::Note(k),
                None => NoteRenderData::Missing(*id),
            };
            Ok(RenderData::note(note_rd, profile_rd))
        },
        Nip19Ref::Coordinate(kind, pubkey, identifier, _) => {
            let note_rd = match found_key {
                Some(k) => NoteRenderData::Note(k),
                None => NoteRenderData::Address {
                    author: *pubkey,
                    kind: *kind as u64,
                    identifier: identifier.clone(),
                },
            };
            Ok(RenderData::note(note_rd, profile_rd))
        },
        Nip19Ref::Profile(..) | Nip19Ref::Pubkey(_) => Ok(RenderData::profile(profile_rd)),
        Nip19Ref::Secret(_) => Err(Error::CantRender),
    }
}


/// The relays to ask for a note: those the identifier names, else the
/// default relays.
pub fn relay_targets(nip19: &Nip19Ref, default_relays: &Vec<String>) -> (res: Vec<String>)
    ensures
        res.deep_view() == if relays_of(nip19@).len() == 0 {
            default_relays.deep_view()
        } else {
            relays_of(nip19@)
        },
{
    let r = nip19_relays(nip19);
    if r.len() == 0 {
        clone_strings(default_relays)
    } else {
        r
    }
}

/// A request for an author's recent activity.
#[derive(Debug, Clone, Copy, PartialEq, Eq)]
pub enum FeedRequest {
    /// Their latest notes (kind 1), at most `limit`
    RecentNotes { author: [u8; 32], limit: u64 },
    /// Their latest relay list (kind 10002), at most one
    RelayList { author: [u8; 32] },
}

/// The requests that fetch an author's profile feed: recent notes, then
/// the relay list.
pub fn profile_feed_requests(pubkey: [u8; 32]) -> (res: Vec<FeedRequest>)
    ensures
        res@ == seq![
            FeedRequest::RecentNotes { author: pubkey, limit: PROFILE_FEED_RECENT_LIMIT as u64 },
            FeedRequest::RelayList { author: pubkey },
        ],
{
    let mut v: Vec<FeedRequest> = Vec::new();
    v.push(FeedRequest::RecentNotes { author: pubkey, limit: PROFILE_FEED_RECENT_LIMIT as u64 });
    v.push(FeedRequest::RelayList { author: pubkey });
    assert(v@ =~= seq![
        FeedRequest::RecentNotes { author: pubkey, limit: PROFILE_FEED_RECENT_LIMIT as u64 },
        FeedRequest::RelayList { author: pubkey },
    ]);
    v
}


/// The profile part a page needs for the author `pk`: the stored profile
/// when the store has its key, else `pk` itself, still to be fetched.
pub open spec fn author_profile(pk: [u8; 32], profile_key: Option<u64>) -> ProfileRenderData {
    match profile_key {
        Some(k) => ProfileRenderData::Profile(k),
        None => ProfileRenderData::Missing(pk),
    }
}

/// The profile part of a page always names the author the identifier or
/// the found note gives: a page for a public key (`npub`, `nprofile`) is
/// that key's profile, stored or missing, and a missing one is the one
/// request made of relays; an address names its author; a found note names
/// its author, and an `nevent` that is not found names the author it
/// carries.
pub proof fn lemma_render_data_names_author(
    n: Nip19View,
    found: Option<FoundNote>,
    profile_key: Option<u64>,
    res: Result<RenderData, Error>,
    reqs: Seq<FetchRequest>,
)
    requires
        render_data_spec(n, found, profile_key, res),
        res matches Ok(rd) ==> requests_spec(rd, reqs),
    ensures
        match n {
            Nip19View::Pubkey(pk) => res == Ok::<RenderData, Error>(
                RenderData::Profile(Some(author_profile(pk, profile_key))),
            ) && (profile_key is None ==> reqs == seq![FetchRequest::ProfileOf(pk)]),
            Nip19View::Profile { pubkey, .. } => res == Ok::<RenderData, Error>(
                RenderData::Profile(Some(author_profile(pubkey, profile_key))),
            ) && (profile_key is None ==> reqs == seq![FetchRequest::ProfileOf(pubkey)]),
            Nip19View::Coordinate { pubkey, .. } => (res matches Ok(RenderData::Note(x))
                && x.profile_rd == Some(author_profile(pubkey, profile_key))),
            Nip19View::Event { author, .. } => match (found, author) {
                (Some(f), _) => (res matches Ok(RenderData::Note(x)) && x.profile_rd == Some(
                    author_profile(f.pubkey, profile_key),
                )),
                (None, Some(a)) => (res matches Ok(RenderData::Note(x)) && x.profile_rd == Some(
                    author_profile(a, profile_key),
                )),
                (None, None) => true,
            },
            Nip19View::EventId(_) => match found {
                Some(f) => (res matches Ok(RenderData::Note(x)) && x.profile_rd == Some(
                    author_profile(f.pubkey, profile_key),
                )),
                None => true,
            },
            Nip19View::Secret(_) => true,
        },
{
    if (n is Pubkey || n is Profile) && profile_key is None {
        assert(reqs =~= seq![reqs[0]]);
    }
}


/// The note part of a page names what the identifier points to: the stored
/// note when the store has it under a key, else the event id (`note`,
/// `nevent`) or the address (`naddr`) still to be fetched, which is then
/// the first request made of relays. Secret keys are refused.
pub proof fn lemma_render_data_names_note(
    n: Nip19View,
    found: Option<FoundNote>,
    profile_key: Option<u64>,
    res: Result<RenderData, Error>,
    reqs: Seq<FetchRequest>,
)
    requires
        render_data_spec(n, found, profile_key, res),
        res matches Ok(rd) ==> requests_spec(rd, reqs),
    ensures
        match n {
            Nip19View::Event { id, .. } => match found {
                Some(FoundNote { key: Some(k), .. }) => (res matches Ok(RenderData::Note(x))
                    && x.note_rd == NoteRenderData::Note(k)),
                _ => (res matches Ok(RenderData::Note(x)) && x.note_rd == NoteRenderData::Missing(id))
                    && reqs.len() > 0 && reqs[0] == FetchRequest::NoteById(id),
            },
            Nip19View::EventId(id) => match found {
                Some(FoundNote { key: Some(k), .. }) => (res matches Ok(RenderData::Note(x))
                    && x.note_rd == NoteRenderData::Note(k)),
                _ => (res matches Ok(RenderData::Note(x)) && x.note_rd == NoteRenderData::Missing(id))
                    && reqs.len() > 0 && reqs[0] == FetchRequest::NoteById(id),
            },
            Nip19View::Coordinate { kind, pubkey, identifier, .. } => match found {
                Some(FoundNote { key: Some(k), .. }) => (res matches Ok(RenderData::Note(x))
                    && x.note_rd == NoteRenderData::Note(k)),
                _ => (res matches Ok(RenderData::Note(x)) && x.note_rd matches NoteRenderData::Address {
                    author,
                    kind: k2,
                    identifier: i2,
                } && author == pubkey && k2 == kind as u64 && i2@ == identifier),
            },
            Nip19View::Secret(_) => res == Err::<RenderData, Error>(Error::CantRender),
            _ => res matches Ok(RenderData::Profile(_)),
        },
{
}

} // verus!
