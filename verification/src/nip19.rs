//! NIP-19 identifiers as plain values, their bech32 text through the
//! `nostr` crate, and the choice of relay hints that travel with them.
use vstd::prelude::*;
use nostr::nips::nip19::{FromBech32, Nip19, Nip19Event, Nip19Coordinate, Nip19Profile, ToBech32};
use nostr::nips::nip19::Nip19::{
    Coordinate as Naddr, Event as Nevent, EventId as Note, Profile as Nprofile, Pubkey as Npub,
    Secret as Nsec,
};
use nostr::{PublicKey, RelayUrl};
use crate::nip19::Nip19Ref::{Coordinate, Event, EventId, Profile, Pubkey, Secret};

verus! {

/// A decoded NIP-19 identifier. Relays are held as the text of the relay
/// URL.
#[derive(Debug)]
pub enum Nip19Ref {
    /// `nsec`: the secret key's bytes
    Secret([u8; 32]),
    /// `npub`
    Pubkey([u8; 32]),
    /// `nprofile`: public key and relays
    Profile([u8; 32], Vec<String>),
    /// `note`
    EventId([u8; 32]),
    /// `nevent`: event id, author, kind and relays
    Event([u8; 32], Option<[u8; 32]>, Option<u16>, Vec<String>),
    /// `naddr`: kind, author, identifier and relays
    Coordinate(u16, [u8; 32], String, Vec<String>),
}

/// The mathematical value of a `Nip19Ref`: texts as character sequences.
#[allow(inconsistent_fields)]
pub ghost enum Nip19View {
    Secret([u8; 32]),
    Pubkey([u8; 32]),
    Profile { pubkey: [u8; 32], relays: Seq<Seq<char>> },
    EventId([u8; 32]),
    Event { id: [u8; 32], author: Option<[u8; 32]>, kind: Option<u16>, relays: Seq<Seq<char>> },
    Coordinate { kind: u16, pubkey: [u8; 32], identifier: Seq<char>, relays: Seq<Seq<char>> },
}

impl View for Nip19Ref {
    type V = Nip19View;

    open spec fn view(&self) -> Nip19View {
        match self {
            Nip19Ref::Secret(k) => Nip19View::Secret(*k),
            Nip19Ref::Pubkey(pk) => Nip19View::Pubkey(*pk),
            Nip19Ref::Profile(pubkey, relays) => Nip19View::Profile {
                pubkey: *pubkey,
                relays: relays.deep_view(),
            },
            Nip19Ref::EventId(id) => Nip19View::EventId(*id),
            Nip19Ref::Event(id, author, kind, relays) => Nip19View::Event {
                id: *id,
                author: *author,
                kind: *kind,
                relays: relays.deep_view(),
            },
            Nip19Ref::Coordinate(kind, pubkey, identifier, relays) => Nip19View::Coordinate {
                kind: *kind,
                pubkey: *pubkey,
                identifier: identifier@,
                relays: relays.deep_view(),
            },
        }
    }
}

/// The text of an optional string.
pub open spec fn opt_view(o: Option<String>) -> Option<Seq<char>> {
    match o {
        Some(s) => Some(s@),
        None => None,
    }
}

/// A copy of a list of strings.
pub fn clone_strings(v: &Vec<String>) -> (res: Vec<String>)
    ensures
        res@ == v@,
        res.deep_view() == v.deep_view(),
{
    let mut res: Vec<String> = Vec::new();
    for i in 0..v.len()
        invariant
            res@ == v@.take(i as int),
    {
        res.push(v[i].clone());
        assert(v@.take(i + 1) =~= v@.take(i as int).push(v@[i as int]));
    }
    assert(v@.take(v.len() as int) =~= v@);
    res
}

pub fn clone_nip19(n: &Nip19Ref) -> (res: Nip19Ref)
    ensures
        res@ == n@,
{
    match n {
        Nip19Ref::Secret(k) => Nip19Ref::Secret(*k),
        Nip19Ref::Pubkey(pk) => Nip19Ref::Pubkey(*pk),
        Nip19Ref::Profile(pubkey, relays) => Nip19Ref::Profile(*pubkey, clone_strings(relays)),
        Nip19Ref::EventId(id) => Nip19Ref::EventId(*id),
        Nip19Ref::Event(id, author, kind, relays) => Nip19Ref::Event(
            *id,
            *author,
            *kind,
            clone_strings(relays),
        ),
        Nip19Ref::Coordinate(kind, pubkey, identifier, relays) => Nip19Ref::Coordinate(
            *kind,
            *pubkey,
            identifier.clone(),
            clone_strings(relays),
        ),
    }
}

/// What `Nip19::from_bech32` decodes a string to, as a plain value.
pub uninterp spec fn spec_decode_nip19(s: Seq<char>) -> Option<Nip19View>;

/// `Nip19::from_bech32`, converted to `Nip19Ref` (relays by their text,
/// kinds by their number, keys and ids by their bytes). The decoded value is
/// named by `spec_decode_nip19`; a decoding error is `None`.
#[verifier::external_body]
pub(crate) fn decode_nip19(s: &str) -> (res: Option<Nip19Ref>)
    ensures
        match res {
            Some(n) => spec_decode_nip19(s@) == Some(n@),
            None => spec_decode_nip19(s@) is None,
        },
{
    let rs = |v: Vec<RelayUrl>| v.iter().map(ToString::to_string).collect();
    Some(match Nip19::from_bech32(s).ok()? {
        Nsec(k) => Secret(k.to_secret_bytes()),
        Npub(p) => Pubkey(p.to_bytes()),
        Nprofile(p) => Profile(p.public_key.to_bytes(), rs(p.relays)),
        Note(id) => EventId(id.to_bytes()),
        Nevent(e) => Event(e.event_id.to_bytes(), e.author.map(PublicKey::to_bytes), e.kind.map(u16::from),
            rs(e.relays)),
        Naddr(c) => Coordinate(c.kind.as_u16(), c.public_key.to_bytes(), c.coordinate.identifier, rs(c.relays)),
    })
}

/// The `nsec1…` text of a secret key's bytes (`SecretKey::from_slice`,
/// then `SecretKey::to_bech32`); nothing when the bytes are not a valid
/// secret key.
pub uninterp spec fn spec_nsec_bech32(key: Seq<u8>) -> Option<Seq<char>>;

/// `SecretKey::from_slice` and then `SecretKey::to_bech32`, which cannot
/// fail; `None` when the bytes are not a valid secret key.
#[verifier::external_body]
pub(crate) fn nsec_bech32(key: [u8; 32]) -> (res: Option<String>)
    ensures
        opt_view(res) == spec_nsec_bech32(key@),
{
    nostr::SecretKey::from_slice(&key).ok()?.to_bech32().ok()
}

/// The `note1…` text of an event id (`EventId::to_bech32`).
pub uninterp spec fn spec_note_bech32(id: Seq<u8>) -> Seq<char>;

/// `EventId::to_bech32`, which cannot fail.
#[verifier::external_body]
pub(crate) fn note_bech32(id: [u8; 32]) -> (res: String)
    ensures
        res@ == spec_note_bech32(id@),
{
    nostr::EventId::from_byte_array(id).to_bech32().unwrap_or_default()
}

/// The `npub1…` text of a public key (`PublicKey::to_bech32`).
pub uninterp spec fn spec_npub_bech32(pk: Seq<u8>) -> Seq<char>;

/// `PublicKey::to_bech32`, which cannot fail.
#[verifier::external_body]
pub(crate) fn npub_bech32(pk: [u8; 32]) -> (res: String)
    ensures
        res@ == spec_npub_bech32(pk@),
{
    nostr::PublicKey::from_byte_array(pk).to_bech32().unwrap_or_default()
}

/// The `nprofile1…` text for a key and relays. It stands for two outside
/// calls: `RelayUrl::parse` on each relay text, then
/// `Nip19Profile::to_bech32`; nothing when a relay does not parse or the
/// encoding fails.
pub uninterp spec fn spec_nprofile_bech32(pk: [u8; 32], relays: Seq<Seq<char>>) -> Option<Seq<char>>;

/// `Nip19Profile::to_bech32` on a profile whose relays are parsed from
/// their text; `None` when a relay does not parse or encoding fails.
#[verifier::external_body]
pub(crate) fn nprofile_bech32(pk: [u8; 32], relays: &Vec<String>) -> (res: Option<String>)
    ensures
        opt_view(res) == spec_nprofile_bech32(pk, relays.deep_view()),
{
    let rs: Vec<nostr::RelayUrl> = relays.iter().map(|r| nostr::RelayUrl::parse(r)).collect::<Result<_, _>>().ok()?;
    Nip19Profile::new(nostr::PublicKey::from_byte_array(pk), rs).to_bech32().ok()
}

/// The `nevent1…` text for an event reference. It stands for two outside
/// calls: `RelayUrl::parse` on each relay text, then `Nip19Event::to_bech32`;
/// nothing when a relay does not parse or the encoding fails.
pub uninterp spec fn spec_nevent_bech32(
    id: [u8; 32],
    author: Option<[u8; 32]>,
    kind: Option<u16>,
    relays: Seq<Seq<char>>,
) -> Option<Seq<char>>;

/// `Nip19Event::to_bech32` for an event id with optional author and kind
/// and relays parsed from their text; `None` when a relay does not parse or
/// encoding fails.
#[verifier::external_body]
pub(crate) fn nevent_bech32(id: [u8; 32], author: Option<[u8; 32]>, kind: Option<u16>, relays: &Vec<String>) -> (res:
    Option<String>)
    ensures
        opt_view(res) == spec_nevent_bech32(id, author, kind, relays.deep_view()),
{
    let rs: Vec<nostr::RelayUrl> = relays.iter().map(|r| nostr::RelayUrl::parse(r)).collect::<Result<_, _>>().ok()?;
    let mut ev = Nip19Event::new(nostr::EventId::from_byte_array(id)).relays(rs);
    ev.author = author.map(nostr::PublicKey::from_byte_array);
    ev.kind = kind.map(nostr::Kind::from);
    ev.to_bech32().ok()
}

/// The `naddr1…` text for an address. It stands for two outside calls:
/// `RelayUrl::parse` on each relay text, then `Nip19Coordinate::to_bech32`;
/// nothing when a relay does not parse or the encoding fails.
pub uninterp spec fn spec_naddr_bech32(
    kind: u16,
    pk: Seq<u8>,
    identifier: Seq<char>,
    relays: Seq<Seq<char>>,
) -> Option<Seq<char>>;

/// `Nip19Coordinate::to_bech32` for a kind, author and identifier, with
/// relays parsed from their text; `None` when a relay does not parse or
/// encoding fails.
#[verifier::external_body]
pub(crate) fn naddr_bech32(kind: u16, pk: [u8; 32], identifier: &str, relays: &Vec<String>) -> (res: Option<String>)
    ensures
        opt_view(res) == spec_naddr_bech32(kind, pk@, identifier@, relays.deep_view()),
{
    let rs: Vec<nostr::RelayUrl> = relays.iter().map(|r| nostr::RelayUrl::parse(r)).collect::<Result<_, _>>().ok()?;
    let coord = nostr::nips::nip01::Coordinate::new(nostr::Kind::from(kind), nostr::PublicKey::from_byte_array(pk))
        .identifier(identifier);
    Nip19Coordinate::new(coord, rs).to_bech32().ok()
}

/// The text of a relay URL as `RelayUrl::parse` normalises it, or nothing
/// when it does not parse.
pub uninterp spec fn spec_parse_relay(s: Seq<char>) -> Option<Seq<char>>;

/// `RelayUrl::parse`, giving the parsed URL's text.
#[verifier::external_body]
pub(crate) fn parse_relay(s: &str) -> (res: Option<String>)
    ensures
        opt_view(res) == spec_parse_relay(s@),
{
    nostr::RelayUrl::parse(s).ok().map(|r| r.to_string())
}

/// The bech32 text of an identifier (`Nip19::to_bech32`); secret keys are
/// not carried, so they have none.
pub open spec fn bech32_spec(n: Nip19View) -> Option<Seq<char>> {
    match n {
        Nip19View::Secret(k) => spec_nsec_bech32(k@),
        Nip19View::Pubkey(pk) => Some(spec_npub_bech32(pk@)),
        Nip19View::Profile { pubkey, relays } => spec_nprofile_bech32(pubkey, relays),
        Nip19View::EventId(id) => Some(spec_note_bech32(id@)),
        Nip19View::Event { id, author, kind, relays } => spec_nevent_bech32(id, author, kind, relays),
        Nip19View::Coordinate { kind, pubkey, identifier, relays } => spec_naddr_bech32(
            kind,
            pubkey@,
            identifier,
            relays,
        ),
    }
}

/// Encodes an identifier as bech32.
pub fn to_bech32(n: &Nip19Ref) -> (res: Option<String>)
    ensures
        opt_view(res) == bech32_spec(n@),
{
    match n {
        Nip19Ref::Secret(k) => nsec_bech32(*k),
        Nip19Ref::Pubkey(pk) => Some(npub_bech32(*pk)),
        Nip19Ref::Profile(pubkey, relays) => nprofile_bech32(*pubkey, relays),
        Nip19Ref::EventId(id) => Some(note_bech32(*id)),
        Nip19Ref::Event(id, author, kind, relays) => nevent_bech32(*id, *author, *kind, relays),
        Nip19Ref::Coordinate(kind, pubkey, identifier, relays) => naddr_bech32(
            *kind,
            *pubkey,
            identifier.as_str(),
            relays,
        ),
    }
}

/// The relay hints an identifier carries.
pub open spec fn relays_of(n: Nip19View) -> Seq<Seq<char>> {
    match n {
        Nip19View::Event { relays, .. } => relays,
        Nip19View::Coordinate { relays, .. } => relays,
        Nip19View::Profile { relays, .. } => relays,
        _ => Seq::empty(),
    }
}

/// The relays that an identifier suggests for finding what it names.
pub fn nip19_relays(n: &Nip19Ref) -> (res: Vec<String>)
    ensures
        res.deep_view() == relays_of(n@),
{
    match n {
        Nip19Ref::Event(_, _, _, relays) => clone_strings(relays),
        Nip19Ref::Coordinate(_, _, _, relays) => clone_strings(relays),
        Nip19Ref::Profile(_, relays) => clone_strings(relays),
        _ => Vec::new(),
    }
}

/// The bech32 text for `n` with `source_relays` as its relay hints: the
/// text of `n` itself when there are no source relays or `n` is of a kind
/// that carries no relays, else a new `nevent` (keeping author and kind),
/// `naddr` or `nprofile` with the source relays in place of its own,
/// falling back to the text of `n` when that cannot be encoded.
pub open spec fn with_relays_spec(n: Nip19View, source: Seq<Seq<char>>) -> Option<Seq<char>> {
    if source.len() == 0 {
        bech32_spec(n)
    } else {
        match n {
            Nip19View::Event { id, author, kind, .. } => match spec_nevent_bech32(
                id,
                author,
                kind,
                source,
            ) {
                Some(s) => Some(s),
                None => bech32_spec(n),
            },
            Nip19View::Coordinate { kind, pubkey, identifier, .. } => match spec_naddr_bech32(
                kind,
                pubkey@,
                identifier,
                source,
            ) {
                Some(s) => Some(s),
                None => bech32_spec(n),
            },
            Nip19View::Profile { pubkey, .. } => match spec_nprofile_bech32(pubkey, source) {
                Some(s) => Some(s),
                None => bech32_spec(n),
            },
            _ => bech32_spec(n),
        }
    }
}

/// Generates a bech32 string with source relay hints.
pub fn bech32_with_relays(n: &Nip19Ref, source_relays: &Vec<String>) -> (res: Option<String>)
    ensures
        opt_view(res) == with_relays_spec(n@, source_relays.deep_view()),
{
    if source_relays.len() == 0 {
        return to_bech32(n);
    }
    match n {
        Nip19Ref::Event(id, author, kind, _) => match nevent_bech32(
            *id,
            *author,
            *kind,
            source_relays,
        ) {
            Some(s) => Some(s),
            None => to_bech32(n),
        },
        Nip19Ref::Coordinate(kind, pubkey, identifier, _) => match naddr_bech32(
            *kind,
            *pubkey,
            identifier.as_str(),
            source_relays,
        ) {
            Some(s) => Some(s),
            None => to_bech32(n),
        },
        Nip19Ref::Profile(pubkey, _) => match nprofile_bech32(*pubkey, source_relays) {
            Some(s) => Some(s),
            None => to_bech32(n),
        },
        _ => to_bech32(n),
    }
}

} // verus!
