//! Unknown ids with the relays that may have them: the notes and profiles
//! a page refers to that the store lacks, gathered from quotes, mentions,
//! the reply chain and the author.
use vstd::prelude::*;
use crate::text::str_eq;
use crate::nip19::{parse_relay, spec_parse_relay, opt_view};
use crate::quotes::{QuoteRef, QuoteView, quotes_view, id_eq, contains_str};
use crate::blocks::{Block, Mention};
use crate::escape::{decode_hex32, hex32_spec};
use crate::text::{chars_of, index_of, first_of, sub_vec, string_of};

verus! {

/// An id that needs to be fetched from relays.
#[derive(Debug, Clone, Copy, PartialEq, Eq, Hash)]
pub enum UnknownId {
    /// A note id
    NoteId([u8; 32]),
    /// A profile's public key
    Profile([u8; 32]),
}

/// One unknown id and the relays hinted for it (each once).
#[derive(Debug)]
pub struct UnknownEntry {
    pub id: UnknownId,
    pub relays: Vec<String>,
}

/// Unknown ids, each once, with their relay hints.
#[derive(Debug)]
pub struct UnknownIds {
    ids: Vec<UnknownEntry>,
}

pub open spec fn relay_set(v: Vec<String>) -> Set<Seq<char>> {
    v.deep_view().to_set()
}

/// The map from ids to relay sets that a list of entries stands for.
pub open spec fn map_of(s: Seq<UnknownEntry>) -> Map<UnknownId, Set<Seq<char>>>
    decreases s.len(),
{
    if s.len() == 0 {
        Map::empty()
    } else {
        map_of(s.drop_last()).insert(s.last().id, relay_set(s.last().relays))
    }
}

pub open spec fn no_dup_strings(v: Seq<Seq<char>>) -> bool {
    forall|i: int, j: int| 0 <= i < j < v.len() ==> #[trigger] v[i] != #[trigger] v[j]
}

pub open spec fn entries_wf(s: Seq<UnknownEntry>) -> bool {
    &&& forall|i: int, j: int| 0 <= i < j < s.len() ==> #[trigger] s[i].id != #[trigger] s[j].id
    &&& forall|i: int| 0 <= i < s.len() ==> no_dup_strings(#[trigger] s[i].relays.deep_view())
}

/// The relays of `k`, none when `k` is absent.
pub open spec fn relays_at(m: Map<UnknownId, Set<Seq<char>>>, k: UnknownId) -> Set<Seq<char>> {
    if m.dom().contains(k) {
        m[k]
    } else {
        Set::empty()
    }
}

/// `m` with `k` present and `rs` added to its relays.
pub open spec fn add_relays(m: Map<UnknownId, Set<Seq<char>>>, k: UnknownId, rs: Set<Seq<char>>) -> Map<
    UnknownId,
    Set<Seq<char>>,
> {
    m.insert(k, relays_at(m, k).union(rs))
}

pub open spec fn note_if_missing(
    m: Map<UnknownId, Set<Seq<char>>>,
    id: [u8; 32],
    relays: Set<Seq<char>>,
    present: bool,
) -> Map<UnknownId, Set<Seq<char>>> {
    if present {
        m
    } else {
        add_relays(m, UnknownId::NoteId(id), relays)
    }
}

pub open spec fn profile_if_missing(m: Map<UnknownId, Set<Seq<char>>>, pk: [u8; 32], present: bool) -> Map<
    UnknownId,
    Set<Seq<char>>,
> {
    if present {
        m
    } else {
        add_relays(m, UnknownId::Profile(pk), Set::empty())
    }
}

proof fn lemma_map_of_dom(s: Seq<UnknownEntry>)
    ensures
        map_of(s).dom().finite(),
        forall|k: UnknownId| #[trigger] map_of(s).dom().contains(k) <==> exists|i: int|
            0 <= i < s.len() && s[i].id == k,
    decreases s.len(),
{
    if s.len() > 0 {
        lemma_map_of_dom(s.drop_last());
        assert forall|k: UnknownId| #[trigger] map_of(s).dom().contains(k) <==> exists|i: int|
            0 <= i < s.len() && s[i].id == k by {
            if map_of(s).dom().contains(k) && k != s.last().id {
                let i = choose|i: int| 0 <= i < s.drop_last().len() && s.drop_last()[i].id == k;
                assert(s[i].id == k);
            }
            if exists|i: int| 0 <= i < s.len() && s[i].id == k {
                let i = choose|i: int| 0 <= i < s.len() && s[i].id == k;
                if i < s.len() - 1 {
                    assert(s.drop_last()[i].id == k);
                }
            }
        }
    }
}

proof fn lemma_map_of_at(s: Seq<UnknownEntry>, i: int)
    requires
        entries_wf(s),
        0 <= i < s.len(),
    ensures
        map_of(s).dom().contains(s[i].id),
        map_of(s)[s[i].id] == relay_set(s[i].relays),
    decreases s.len(),
{
    lemma_map_of_dom(s);
    if i < s.len() - 1 {
        let t = s.drop_last();
        assert(entries_wf(t)) by {
            assert forall|a: int, b: int| 0 <= a < b < t.len() implies #[trigger] t[a].id != #[trigger] t[b].id by {
                assert(t[a] == s[a] && t[b] == s[b]);
            }
            assert forall|a: int| 0 <= a < t.len() implies no_dup_strings(#[trigger] t[a].relays.deep_view()) by {
                assert(t[a] == s[a]);
            }
        }
        assert(t[i] == s[i]);
        lemma_map_of_at(t, i);
        assert(s[i].id != s.last().id);
    }
}

proof fn lemma_map_of_len(s: Seq<UnknownEntry>)
    requires
        entries_wf(s),
    ensures
        map_of(s).dom().len() == s.len(),
    decreases s.len(),
{
    lemma_map_of_dom(s);
    if s.len() > 0 {
        let t = s.drop_last();
        assert(entries_wf(t)) by {
            assert forall|a: int, b: int| 0 <= a < b < t.len() implies #[trigger] t[a].id != #[trigger] t[b].id by {
                assert(t[a] == s[a] && t[b] == s[b]);
            }
            assert forall|a: int| 0 <= a < t.len() implies no_dup_strings(#[trigger] t[a].relays.deep_view()) by {
                assert(t[a] == s[a]);
            }
        }
        lemma_map_of_len(t);
        lemma_map_of_dom(t);
        assert(!map_of(t).dom().contains(s.last().id)) by {
            if map_of(t).dom().contains(s.last().id) {
                let i = choose|i: int| 0 <= i < t.len() && t[i].id == s.last().id;
                assert(s[i].id == s[s.len() - 1].id);
            }
        }
        assert(map_of(s).dom() == map_of(t).dom().insert(s.last().id));
    }
}

proof fn lemma_map_of_update(s: Seq<UnknownEntry>, i: int, e: UnknownEntry)
    requires
        entries_wf(s),
        0 <= i < s.len(),
        e.id == s[i].id,
    ensures
        map_of(s.update(i, e)) == map_of(s).insert(e.id, relay_set(e.relays)),
    decreases s.len(),
{
    let u = s.update(i, e);
    if i == s.len() - 1 {
        assert(u.drop_last() =~= s.drop_last());
        assert(map_of(s).insert(e.id, relay_set(e.relays)) =~= map_of(s.drop_last()).insert(
            e.id,
            relay_set(e.relays),
        ));
    } else {
        let t = s.drop_last();
        assert(entries_wf(t)) by {
            assert forall|a: int, b: int| 0 <= a < b < t.len() implies #[trigger] t[a].id != #[trigger] t[b].id by {
                assert(t[a] == s[a] && t[b] == s[b]);
            }
            assert forall|a: int| 0 <= a < t.len() implies no_dup_strings(#[trigger] t[a].relays.deep_view()) by {
                assert(t[a] == s[a]);
            }
        }
        lemma_map_of_update(t, i, e);
        assert(u.drop_last() =~= t.update(i, e));
        assert(s.last().id != e.id);
        assert(map_of(u) =~= map_of(s).insert(e.id, relay_set(e.relays)));
    }
}

impl View for UnknownIds {
    type V = Map<UnknownId, Set<Seq<char>>>;

    closed spec fn view(&self) -> Map<UnknownId, Set<Seq<char>>> {
        map_of(self.ids@)
    }
}

impl UnknownIds {
    /// Each id once; each relay once per id.
    pub closed spec fn wf(&self) -> bool {
        entries_wf(self.ids@)
    }

    pub fn new() -> (res: Self)
        ensures
            res.wf(),
            res@ == Map::<UnknownId, Set<Seq<char>>>::empty(),
    {
        UnknownIds { ids: Vec::new() }
    }

    pub fn is_empty(&self) -> (res: bool)
        requires
            self.wf(),
        ensures
            res == (self@.dom().len() == 0),
    {
        proof {
            lemma_map_of_len(self.ids@);
        }
        self.ids.len() == 0
    }

    /// The number of unknown ids.
    pub fn ids_len(&self) -> (res: usize)
        requires
            self.wf(),
        ensures
            res == self@.dom().len(),
    {
        proof {
            lemma_map_of_len(self.ids@);
        }
        self.ids.len()
    }

    fn find(&self, k: UnknownId) -> (res: Option<usize>)
        requires
            self.wf(),
        ensures
            match res {
                Some(i) => i < self.ids.len() && self.ids@[i as int].id == k,
                None => !self@.dom().contains(k),
            },
    {
        proof {
            lemma_map_of_dom(self.ids@);
        }
        let mut i: usize = 0;
        while i < self.ids.len()
            invariant
                i <= self.ids.len(),
                forall|j: int| 0 <= j < i ==> self.ids@[j].id != k,
            decreases self.ids.len() - i,
        {
            let same = match (self.ids[i].id, k) {
                (UnknownId::NoteId(a), UnknownId::NoteId(b)) => id_eq(&a, &b),
                (UnknownId::Profile(a), UnknownId::Profile(b)) => id_eq(&a, &b),
                _ => false,
            };
            if same {
                proof {
                    match (self.ids@[i as int].id, k) {
                        (UnknownId::NoteId(a), UnknownId::NoteId(b)) => {
                            assert(a == b);
                        },
                        (UnknownId::Profile(a), UnknownId::Profile(b)) => {
                            assert(a == b);
                        },
                        _ => {},
                    }
                }
                return Some(i);
            }
            proof {
                match (self.ids@[i as int].id, k) {
                    (UnknownId::NoteId(a), UnknownId::NoteId(b)) => {
                        assert(a@ != b@);
                    },
                    (UnknownId::Profile(a), UnknownId::Profile(b)) => {
                        assert(a@ != b@);
                    },
                    _ => {},
                }
            }
            i = i + 1;
        }
        None
    }

    /// Adds `k` (when absent) and the relays of `relays` it lacks.
    pub fn add_relays(&mut self, k: UnknownId, relays: &Vec<String>)
        requires
            old(self).wf(),
        ensures
            final(self).wf(),
            final(self)@ == add_relays(old(self)@, k, relays.deep_view().to_set()),
    {
        let ghost m0 = self@;
        let mut merged: Vec<String> = Vec::new();
        let pos = self.find(k);
        match pos {
            Some(i) => {
                proof {
                    lemma_map_of_at(self.ids@, i as int);
                }
                let cur = &self.ids[i].relays;
                for j in 0..cur.len()
                    invariant
                        merged.deep_view() == cur.deep_view().take(j as int),
                {
                    merged.push(cur[j].clone());
                    assert(cur.deep_view().take(j + 1) =~= cur.deep_view().take(j as int).push(
                        cur@[j as int]@,
                    ));
                    assert(merged.deep_view() =~= cur.deep_view().take(j + 1));
                }
                assert(cur.deep_view().take(cur.len() as int) =~= cur.deep_view());
            },
            None => {},
        }
        let ghost base = merged.deep_view();
        assert(no_dup_strings(base)) by {
            if let Some(i) = pos {
                assert(no_dup_strings(self.ids@[i as int].relays.deep_view()));
            }
        }
        for j in 0..relays.len()
            invariant
                no_dup_strings(merged.deep_view()),
                merged.deep_view().to_set() == base.to_set().union(relays.deep_view().take(j as int).to_set()),
        {
            let r = relays[j].as_str();
            let ghost before = merged.deep_view();
            proof {
                relays.deep_view().take(j as int).lemma_push_to_set_commute(r@);
                before.lemma_push_to_set_commute(r@);
            }
            if !contains_str(&merged, r) {
                merged.push(relays[j].clone());
                assert(merged.deep_view() =~= before.push(r@));
            } else {
                assert(before.to_set().contains(r@));
                assert(before.to_set().insert(r@) =~= before.to_set());
            }
            assert(relays.deep_view().take(j + 1) =~= relays.deep_view().take(j as int).push(r@));
            assert(merged.deep_view().to_set() =~= base.to_set().union(relays.deep_view().take(j + 1).to_set()));
        }
        assert(relays.deep_view().take(relays.len() as int) =~= relays.deep_view());
        let e = UnknownEntry { id: k, relays: merged };
        match pos {
            Some(i) => {
                proof {
                    lemma_map_of_update(self.ids@, i as int, e);
                    lemma_map_of_at(self.ids@, i as int);
                }
                let ghost before = self.ids@;
                assert(relay_set(e.relays) =~= relays_at(m0, k).union(relays.deep_view().to_set()));
                self.ids.set(i, e);
                assert(self.ids@ == before.update(i as int, e));
                assert(self@ =~= add_relays(m0, k, relays.deep_view().to_set()));
            },
            None => {
                let ghost before = self.ids@;
                proof {
                    lemma_map_of_dom(before);
                }
                self.ids.push(e);
                assert(self.ids@.drop_last() =~= before);
                assert(base =~= Seq::<Seq<char>>::empty());
                assert(base.to_set() =~= Set::<Seq<char>>::empty());
                assert(relay_set(e.relays) =~= relays_at(m0, k).union(relays.deep_view().to_set()));
                assert(self@ =~= add_relays(m0, k, relays.deep_view().to_set()));
            },
        }
    }
}


/// What the store holds of the notes and profiles a page refers to: the
/// notes found (with their authors) and the public keys whose profiles
/// were found.
#[derive(Debug)]
pub struct StoreSnapshot {
    pub notes: Vec<StoredRef>,
    pub profiles: Vec<[u8; 32]>,
}

/// A stored note's id and author.
#[derive(Debug, Clone, Copy)]
pub struct StoredRef {
    pub id: [u8; 32],
    pub author: [u8; 32],
}

/// The author of the stored note `id`, when the store has it.
pub open spec fn stored_author(notes: Seq<StoredRef>, id: [u8; 32]) -> Option<[u8; 32]>
    decreases notes.len(),
{
    if notes.len() == 0 {
        None
    } else if notes[0].id@ == id@ {
        Some(notes[0].author)
    } else {
        stored_author(notes.drop_first(), id)
    }
}

pub open spec fn has_profile(profiles: Seq<[u8; 32]>, pk: [u8; 32]) -> bool {
    exists|j: int| 0 <= j < profiles.len() && (#[trigger] profiles[j])@ == pk@
}

impl StoreSnapshot {
    pub fn note_author(&self, id: &[u8; 32]) -> (res: Option<[u8; 32]>)
        ensures
            res == stored_author(self.notes@, *id),
    {
        let mut i: usize = 0;
        assert(self.notes@.skip(0) =~= self.notes@);
        while i < self.notes.len()
            invariant
                i <= self.notes.len(),
                stored_author(self.notes@.skip(i as int), *id) == stored_author(self.notes@, *id),
            decreases self.notes.len() - i,
        {
            assert(self.notes@.skip(i as int).drop_first() =~= self.notes@.skip(i + 1));
            assert(self.notes@.skip(i as int)[0] == self.notes@[i as int]);
            if id_eq(&self.notes[i].id, id) {
                return Some(self.notes[i].author);
            }
            i = i + 1;
        }
        None
    }

    pub fn has_profile(&self, pk: &[u8; 32]) -> (res: bool)
        ensures
            res == has_profile(self.profiles@, *pk),
    {
        let mut i: usize = 0;
        while i < self.profiles.len()
            invariant
                i <= self.profiles.len(),
                forall|j: int| 0 <= j < i ==> self.profiles@[j]@ != pk@,
            decreases self.profiles.len() - i,
        {
            if id_eq(&self.profiles[i], pk) {
                return true;
            }
            i = i + 1;
        }
        false
    }
}

/// The relays among `texts` that parse as relay URLs.
pub open spec fn parsed_relays(texts: Seq<Seq<char>>) -> Set<Seq<char>> {
    Set::new(|r: Seq<char>| exists|i: int| 0 <= i < texts.len() && spec_parse_relay(#[trigger] texts[i]) == Some(r))
}

fn parse_relays(texts: &Vec<String>) -> (res: Vec<String>)
    ensures
        res.deep_view().to_set() == parsed_relays(texts.deep_view()),
{
    let ghost tv = texts.deep_view();
    let mut out: Vec<String> = Vec::new();
    for i in 0..texts.len()
        invariant
            tv == texts.deep_view(),
            out.deep_view().to_set() == parsed_relays(tv.take(i as int)),
    {
        let ghost before = out.deep_view();
        assert(tv.take(i + 1) =~= tv.take(i as int).push(tv[i as int]));
        match parse_relay(texts[i].as_str()) {
            Some(r) => {
                out.push(r);
                proof {
                    before.lemma_push_to_set_commute(r@);
                    assert(out.deep_view() =~= before.push(r@));
                    assert forall|x: Seq<char>| #[trigger] parsed_relays(tv.take(i + 1)).contains(x) <==> before.to_set().insert(r@).contains(x) by {
                        if parsed_relays(tv.take(i + 1)).contains(x) {
                            let k = choose|k: int| 0 <= k < tv.take(i + 1).len() && spec_parse_relay(#[trigger] tv.take(i + 1)[k]) == Some(x);
                            if k < i {
                                assert(tv.take(i as int)[k] == tv.take(i + 1)[k]);
                                assert(parsed_relays(tv.take(i as int)).contains(x));
                            }
                        }
                        if before.to_set().contains(x) && x != r@ {
                            assert(parsed_relays(tv.take(i as int)).contains(x));
                            let k = choose|k: int| 0 <= k < tv.take(i as int).len() && spec_parse_relay(#[trigger] tv.take(i as int)[k]) == Some(x);
                            assert(tv.take(i + 1)[k] == tv.take(i as int)[k]);
                        }
                        if x == r@ {
                            assert(tv.take(i + 1)[i as int] == tv[i as int]);
                        }
                    }
                    assert(out.deep_view().to_set() =~= parsed_relays(tv.take(i + 1)));
                }
            },
            None => {
                proof {
                    assert forall|x: Seq<char>| #[trigger] parsed_relays(tv.take(i + 1)).contains(x) <==> parsed_relays(tv.take(i as int)).contains(x) by {
                        if parsed_relays(tv.take(i + 1)).contains(x) {
                            let k = choose|k: int| 0 <= k < tv.take(i + 1).len() && spec_parse_relay(#[trigger] tv.take(i + 1)[k]) == Some(x);
                            assert(k != i);
                            assert(tv.take(i as int)[k] == tv.take(i + 1)[k]);
                        }
                        if parsed_relays(tv.take(i as int)).contains(x) {
                            let k = choose|k: int| 0 <= k < tv.take(i as int).len() && spec_parse_relay(#[trigger] tv.take(i as int)[k]) == Some(x);
                            assert(tv.take(i + 1)[k] == tv.take(i as int)[k]);
                        }
                    }
                    assert(parsed_relays(tv.take(i + 1)) =~= parsed_relays(tv.take(i as int)));
                }
            },
        }
    }
    assert(tv.take(texts.len() as int) =~= tv);
    out
}

impl UnknownIds {
    /// Adds a note id, with relay hints, when the store lacks the note.
    pub fn add_note_if_missing(&mut self, id: &[u8; 32], relays: &Vec<String>, present: bool)
        requires
            old(self).wf(),
        ensures
            final(self).wf(),
            final(self)@ == note_if_missing(old(self)@, *id, relays.deep_view().to_set(), present),
    {
        if present {
            return;
        }
        self.add_relays(UnknownId::NoteId(*id), relays);
    }

    /// Adds a profile's public key when the store lacks the profile.
    pub fn add_profile_if_missing(&mut self, pk: &[u8; 32], present: bool)
        requires
            old(self).wf(),
        ensures
            final(self).wf(),
            final(self)@ == profile_if_missing(old(self)@, *pk, present),
    {
        if present {
            return;
        }
        let none: Vec<String> = Vec::new();
        assert(none.deep_view().to_set() =~= Set::<Seq<char>>::empty());
        self.add_relays(UnknownId::Profile(*pk), &none);
    }
}

// ---------------------------------------------------------------------
// Gathering unknowns
// ---------------------------------------------------------------------

/// The author of an article address: the second `:`-separated part, when
/// it is 32 bytes of hex.
pub open spec fn addr_author(addr: Seq<char>) -> Option<Seq<u8>> {
    let i = first_of(addr, ':');
    if i >= addr.len() {
        None
    } else {
        let r = addr.skip(i + 1);
        hex32_spec(r.take(first_of(r, ':')))
    }
}

fn addr_author_of(addr: &str) -> (res: Option<[u8; 32]>)
    ensures
        match res {
            Some(pk) => addr_author(addr@) == Some(pk@),
            None => addr_author(addr@) is None,
        },
{
    let v = chars_of(addr);
    let i = index_of(&v, ':');
    if i >= v.len() {
        return None;
    }
    let rest = sub_vec(&v, i + 1, v.len());
    assert(rest@ =~= addr@.skip(i + 1));
    let j = index_of(&rest, ':');
    let part = sub_vec(&rest, 0, j);
    assert(part@ =~= rest@.take(j as int));
    decode_hex32(string_of(&part).as_str())
}

pub open spec fn quote_unknowns(m: Map<UnknownId, Set<Seq<char>>>, q: QuoteView, notes: Seq<StoredRef>, profiles: Seq<[u8; 32]>) -> Map<UnknownId, Set<Seq<char>>> {
    match q {
        QuoteView::Event { id, relays, .. } => match choose_id(id) {
            Some(a) => note_if_missing(m, a, relays.to_set(), stored_author(notes, a) is Some),
            None => m,
        },
        QuoteView::Article { addr, .. } => match addr_author(addr) {
            Some(pk) => match choose_id(pk) {
                Some(a) => profile_if_missing(m, a, has_profile(profiles, a)),
                None => m,
            },
            None => m,
        },
    }
}

/// The 32-byte array whose bytes are `b`, when `b` has 32 bytes.
pub open spec fn choose_id(b: Seq<u8>) -> Option<[u8; 32]> {
    if exists|a: [u8; 32]| a@ == b {
        Some(choose|a: [u8; 32]| a@ == b)
    } else {
        None
    }
}

pub open spec fn quotes_unknowns(m: Map<UnknownId, Set<Seq<char>>>, qs: Seq<QuoteView>, notes: Seq<StoredRef>, profiles: Seq<[u8; 32]>) -> Map<UnknownId, Set<Seq<char>>>
    decreases qs.len(),
{
    if qs.len() == 0 {
        m
    } else {
        quote_unknowns(quotes_unknowns(m, qs.drop_last(), notes, profiles), qs.last(), notes, profiles)
    }
}

proof fn lemma_choose_id(a: [u8; 32])
    ensures
        choose_id(a@) == Some(a),
{
    assert(exists|b: [u8; 32]| b@ == a@);
    let c = choose|b: [u8; 32]| b@ == a@;
    assert(c@ == a@);
    assert(c == a);
}

impl UnknownIds {
    /// Gathers the quoted notes the store lacks (with their relay hints)
    /// and the authors of quoted articles whose profiles it lacks.
    pub fn collect_from_quote_refs(&mut self, quote_refs: &Vec<QuoteRef>, store: &StoreSnapshot)
        requires
            old(self).wf(),
        ensures
            final(self).wf(),
            final(self)@ == quotes_unknowns(old(self)@, quotes_view(quote_refs@), store.notes@, store.profiles@),
    {
        let ghost qs = quotes_view(quote_refs@);
        let ghost m0 = self@;
        for i in 0..quote_refs.len()
            invariant
                self.wf(),
                qs == quotes_view(quote_refs@),
                m0 == old(self)@,
                self@ == quotes_unknowns(m0, qs.take(i as int), store.notes@, store.profiles@),
        {
            assert(qs.take(i + 1).drop_last() =~= qs.take(i as int));
            assert(qs.take(i + 1).last() == quote_refs@[i as int]@);
            match &quote_refs[i] {
                QuoteRef::Event { id, relays, .. } => {
                    proof {
                        lemma_choose_id(*id);
                    }
                    let present = store.note_author(id).is_some();
                    self.add_note_if_missing(id, relays, present);
                },
                QuoteRef::Article { addr, .. } => {
                    if let Some(pk) = addr_author_of(addr.as_str()) {
                        proof {
                            lemma_choose_id(pk);
                        }
                        let present = store.has_profile(&pk);
                        self.add_profile_if_missing(&pk, present);
                    }
                },
            }
        }
        assert(qs.take(quote_refs.len() as int) =~= qs);
    }
}


/// A note that a note's tags point to as its thread root or reply target,
/// with the relay hint given there.
#[derive(Debug)]
pub struct ThreadRef {
    pub id: [u8; 32],
    pub relay: Option<String>,
}

pub open spec fn hint_set(relay: Option<String>) -> Set<Seq<char>> {
    match relay {
        Some(r) => match spec_parse_relay(r@) {
            Some(u) => set![u],
            None => Set::empty(),
        },
        None => Set::empty(),
    }
}

pub open spec fn thread_unknowns(m: Map<UnknownId, Set<Seq<char>>>, t: Option<ThreadRef>, notes: Seq<StoredRef>) -> Map<UnknownId, Set<Seq<char>>> {
    match t {
        Some(r) => note_if_missing(m, r.id, hint_set(r.relay), stored_author(notes, r.id) is Some),
        None => m,
    }
}

/// The unknowns a mention adds: the mentioned profile, or the mentioned
/// note (with its hinted author) when the store lacks it, else that note's
/// author when the store lacks the profile.
pub open spec fn mention_unknowns(m: Map<UnknownId, Set<Seq<char>>>, b: Block, notes: Seq<StoredRef>, profiles: Seq<[u8; 32]>) -> Map<UnknownId, Set<Seq<char>>> {
    match b {
        Block::MentionBech32 { mention, .. } => match mention {
            Mention::Pubkey(pk) => profile_if_missing(m, pk, has_profile(profiles, pk)),
            Mention::Profile { pubkey, relays } => if has_profile(profiles, pubkey) {
                m
            } else {
                add_relays(m, UnknownId::Profile(pubkey), parsed_relays(relays.deep_view()))
            },
            Mention::Event { id, author, relays } => {
                let rs = parsed_relays(relays.deep_view());
                match stored_author(notes, id) {
                    None => {
                        let m1 = add_relays(m, UnknownId::NoteId(id), rs);
                        match author {
                            Some(pk) => if has_profile(profiles, pk) {
                                m1
                            } else {
                                add_relays(m1, UnknownId::Profile(pk), rs)
                            },
                            None => m1,
                        }
                    },
                    Some(a) => if has_profile(profiles, a) {
                        m
                    } else {
                        add_relays(m, UnknownId::Profile(a), rs)
                    },
                }
            },
            Mention::Note(id) => match stored_author(notes, id) {
                None => add_relays(m, UnknownId::NoteId(id), Set::empty()),
                Some(a) => profile_if_missing(m, a, has_profile(profiles, a)),
            },
            _ => m,
        },
        _ => m,
    }
}

pub open spec fn blocks_unknowns(m: Map<UnknownId, Set<Seq<char>>>, bs: Seq<Block>, notes: Seq<StoredRef>, profiles: Seq<[u8; 32]>) -> Map<UnknownId, Set<Seq<char>>>
    decreases bs.len(),
{
    if bs.len() == 0 {
        m
    } else {
        mention_unknowns(blocks_unknowns(m, bs.drop_last(), notes, profiles), bs.last(), notes, profiles)
    }
}

/// Everything a note needs that the store lacks: its author's profile, its
/// thread root and reply target, and what its content mentions.
pub open spec fn note_unknowns(
    m: Map<UnknownId, Set<Seq<char>>>,
    author: [u8; 32],
    root: Option<ThreadRef>,
    reply: Option<ThreadRef>,
    blocks: Option<Vec<Block>>,
    notes: Seq<StoredRef>,
    profiles: Seq<[u8; 32]>,
) -> Map<UnknownId, Set<Seq<char>>> {
    let m1 = profile_if_missing(m, author, has_profile(profiles, author));
    let m2 = thread_unknowns(thread_unknowns(m1, root, notes), reply, notes);
    match blocks {
        Some(bs) => blocks_unknowns(m2, bs@, notes, profiles),
        None => m2,
    }
}

fn hint_vec_of(relay: &Option<String>) -> (res: Vec<String>)
    ensures
        res.deep_view().to_set() == hint_set(*relay),
{
    let mut v: Vec<String> = Vec::new();
    if let Some(r) = relay {
        if let Some(u) = parse_relay(r.as_str()) {
            v.push(u);
        }
    }
    proof {
        assert(v.deep_view().to_set() =~= hint_set(*relay)) by {
            if v.len() == 1 {
                assert(v.deep_view()[0] == v@[0]@);
            }
        }
    }
    v
}

impl UnknownIds {
    fn collect_thread_ref(&mut self, t: &Option<ThreadRef>, store: &StoreSnapshot)
        requires
            old(self).wf(),
        ensures
            final(self).wf(),
            final(self)@ == thread_unknowns(old(self)@, *t, store.notes@),
    {
        if let Some(r) = t {
            let relays = hint_vec_of(&r.relay);
            let present = store.note_author(&r.id).is_some();
            self.add_note_if_missing(&r.id, &relays, present);
        }
    }

    /// Gathers the thread root and reply target that the store lacks.
    pub fn collect_reply_chain(&mut self, root: &Option<ThreadRef>, reply: &Option<ThreadRef>, store: &StoreSnapshot)
        requires
            old(self).wf(),
        ensures
            final(self).wf(),
            final(self)@ == thread_unknowns(thread_unknowns(old(self)@, *root, store.notes@), *reply, store.notes@),
    {
        self.collect_thread_ref(root, store);
        self.collect_thread_ref(reply, store);
    }

    fn collect_from_block(&mut self, b: &Block, store: &StoreSnapshot)
        requires
            old(self).wf(),
        ensures
            final(self).wf(),
            final(self)@ == mention_unknowns(old(self)@, *b, store.notes@, store.profiles@),
    {
        if let Block::MentionBech32 { mention, .. } = b {
            match mention {
                Mention::Pubkey(pk) => {
                    let present = store.has_profile(pk);
                    self.add_profile_if_missing(pk, present);
                },
                Mention::Profile { pubkey, relays } => {
                    if !store.has_profile(pubkey) {
                        let rs = parse_relays(relays);
                        self.add_relays(UnknownId::Profile(*pubkey), &rs);
                    }
                },
                Mention::Event { id, author, relays } => {
                    let rs = parse_relays(relays);
                    match store.note_author(id) {
                        None => {
                            self.add_relays(UnknownId::NoteId(*id), &rs);
                            if let Some(pk) = author {
                                if !store.has_profile(pk) {
                                    self.add_relays(UnknownId::Profile(*pk), &rs);
                                }
                            }
                        },
                        Some(a) => {
                            if !store.has_profile(&a) {
                                self.add_relays(UnknownId::Profile(a), &rs);
                            }
                        },
                    }
                },
                Mention::Note(id) => match store.note_author(id) {
                    None => {
                        let none: Vec<String> = Vec::new();
                        assert(none.deep_view().to_set() =~= Set::<Seq<char>>::empty());
                        self.add_relays(UnknownId::NoteId(*id), &none);
                    },
                    Some(a) => {
                        let present = store.has_profile(&a);
                        self.add_profile_if_missing(&a, present);
                    },
                },
                _ => {},
            }
        }
    }

    /// Gathers what the mentions in a note's content refer to and the store
    /// lacks (nothing when the store has no parsed content for it).
    pub fn collect_from_blocks(&mut self, blocks: &Option<Vec<Block>>, store: &StoreSnapshot)
        requires
            old(self).wf(),
        ensures
            final(self).wf(),
            final(self)@ == match blocks {
                Some(bs) => blocks_unknowns(old(self)@, bs@, store.notes@, store.profiles@),
                None => old(self)@,
            },
    {
        if let Some(bs) = blocks {
            let ghost m0 = self@;
            for i in 0..bs.len()
                invariant
                    self.wf(),
                    m0 == old(self)@,
                    self@ == blocks_unknowns(m0, bs@.take(i as int), store.notes@, store.profiles@),
            {
                assert(bs@.take(i + 1).drop_last() =~= bs@.take(i as int));
                self.collect_from_block(&bs[i], store);
            }
            assert(bs@.take(bs.len() as int) =~= bs@);
        }
    }

    /// Gathers everything a note needs that the store lacks: its author's
    /// profile, its reply chain and its mentions.
    pub fn collect_from_note(
        &mut self,
        author: &[u8; 32],
        root: &Option<ThreadRef>,
        reply: &Option<ThreadRef>,
        blocks: &Option<Vec<Block>>,
        store: &StoreSnapshot,
    )
        requires
            old(self).wf(),
        ensures
            final(self).wf(),
            final(self)@ == note_unknowns(old(self)@, *author, *root, *reply, *blocks, store.notes@, store.profiles@),
    {
        let present = store.has_profile(author);
        self.add_profile_if_missing(author, present);
        self.collect_reply_chain(root, reply, store);
        self.collect_from_blocks(blocks, store);
    }
}


// ---------------------------------------------------------------------
// Reading the unknowns out
// ---------------------------------------------------------------------

/// Every relay hinted for some unknown id.
pub open spec fn all_relays(m: Map<UnknownId, Set<Seq<char>>>) -> Set<Seq<char>> {
    Set::new(|r: Seq<char>| exists|k: UnknownId| m.dom().contains(k) && #[trigger] m[k].contains(r))
}

pub open spec fn note_keys(m: Map<UnknownId, Set<Seq<char>>>) -> Set<[u8; 32]> {
    Set::new(|id: [u8; 32]| m.dom().contains(UnknownId::NoteId(id)))
}

pub open spec fn profile_keys(m: Map<UnknownId, Set<Seq<char>>>) -> Set<[u8; 32]> {
    Set::new(|pk: [u8; 32]| m.dom().contains(UnknownId::Profile(pk)))
}

pub open spec fn no_dup_ids(v: Seq<[u8; 32]>) -> bool {
    forall|i: int, j: int| 0 <= i < j < v.len() ==> #[trigger] v[i] != #[trigger] v[j]
}

/// A request for the unknown ids of one sort.
#[derive(Debug)]
pub enum UnknownFilter {
    /// The notes with these ids
    Notes(Vec<[u8; 32]>),
    /// The profiles (kind 0) of these authors
    Profiles(Vec<[u8; 32]>),
}

/// The requests for a set of unknowns: one for the note ids when there
/// are any, then one for the profiles when there are any; each id once.
pub open spec fn filters_spec(res: Seq<UnknownFilter>, m: Map<UnknownId, Set<Seq<char>>>) -> bool {
    let n = note_keys(m);
    let p = profile_keys(m);
    let notes_part: Seq<bool> = if n =~= Set::empty() { Seq::empty() } else { seq![true] };
    let profiles_part: Seq<bool> = if p =~= Set::empty() { Seq::empty() } else { seq![false] };
    let shape = notes_part + profiles_part;
    &&& res.len() == shape.len()
    &&& forall|i: int| 0 <= i < res.len() ==> match #[trigger] res[i] {
        UnknownFilter::Notes(v) => shape[i] && v@.to_set() == n && no_dup_ids(v@),
        UnknownFilter::Profiles(v) => !shape[i] && v@.to_set() == p && no_dup_ids(v@),
    }
}

proof fn lemma_entries_lookup(s: Seq<UnknownEntry>, k: UnknownId)
    requires
        entries_wf(s),
    ensures
        map_of(s).dom().contains(k) <==> exists|i: int| 0 <= i < s.len() && s[i].id == k,
        forall|i: int| 0 <= i < s.len() && s[i].id == k ==> map_of(s)[k] == relay_set(#[trigger] s[i].relays),
{
    lemma_map_of_dom(s);
    assert forall|i: int| 0 <= i < s.len() && s[i].id == k implies map_of(s)[k] == relay_set(#[trigger] s[i].relays) by {
        lemma_map_of_at(s, i);
    }
}

proof fn lemma_push_contains(v: Seq<[u8; 32]>, x: [u8; 32], y: [u8; 32])
    ensures
        v.push(x).contains(y) <==> v.contains(y) || y == x,
{
    if v.push(x).contains(y) {
        let q = choose|q: int| 0 <= q < v.push(x).len() && v.push(x)[q] == y;
        if q < v.len() {
            assert(v[q] == y);
        }
    }
    if v.contains(y) {
        let q = choose|q: int| 0 <= q < v.len() && v[q] == y;
        assert(v.push(x)[q] == y);
    }
    if y == x {
        assert(v.push(x)[v.len() as int] == y);
    }
}

/// The relays of the first `i` entries.
pub open spec fn union_upto(s: Seq<UnknownEntry>, i: int) -> Set<Seq<char>>
    decreases i,
{
    if i <= 0 {
        Set::empty()
    } else {
        union_upto(s, i - 1).union(relay_set(s[i - 1].relays))
    }
}

proof fn lemma_union_upto_contains(s: Seq<UnknownEntry>, i: int, r: Seq<char>)
    requires
        0 <= i <= s.len(),
    ensures
        union_upto(s, i).contains(r) <==> exists|j: int| 0 <= j < i && #[trigger] relay_set(s[j].relays).contains(r),
    decreases i,
{
    if i > 0 {
        lemma_union_upto_contains(s, i - 1, r);
    }
}

proof fn lemma_union_all(s: Seq<UnknownEntry>)
    requires
        entries_wf(s),
    ensures
        union_upto(s, s.len() as int) == all_relays(map_of(s)),
{
    let m = map_of(s);
    assert forall|x: Seq<char>| union_upto(s, s.len() as int).contains(x) <==> #[trigger] all_relays(m).contains(x) by {
        lemma_union_upto_contains(s, s.len() as int, x);
        if union_upto(s, s.len() as int).contains(x) {
            let j = choose|j: int| 0 <= j < s.len() && #[trigger] relay_set(s[j].relays).contains(x);
            lemma_entries_lookup(s, s[j].id);
            assert(m.dom().contains(s[j].id) && m[s[j].id].contains(x));
        }
        if all_relays(m).contains(x) {
            let k = choose|k: UnknownId| m.dom().contains(k) && #[trigger] m[k].contains(x);
            lemma_entries_lookup(s, k);
            let j = choose|j: int| 0 <= j < s.len() && s[j].id == k;
            assert(relay_set(s[j].relays).contains(x));
        }
    }
    assert(union_upto(s, s.len() as int) =~= all_relays(m));
}

impl UnknownIds {
    /// Every relay hinted for some unknown id, each once.
    pub fn relay_hints(&self) -> (res: Vec<String>)
        requires
            self.wf(),
        ensures
            no_dup_strings(res.deep_view()),
            res.deep_view().to_set() == all_relays(self@),
    {
        let ghost s = self.ids@;
        let mut out: Vec<String> = Vec::new();
        assert(out.deep_view().to_set() =~= union_upto(s, 0));
        for i in 0..self.ids.len()
            invariant
                s == self.ids@,
                no_dup_strings(out.deep_view()),
                out.deep_view().to_set() == union_upto(s, i as int),
        {
            let rs = &self.ids[i].relays;
            for k in 0..rs.len()
                invariant
                    s == self.ids@,
                    rs == s[i as int].relays,
                    no_dup_strings(out.deep_view()),
                    out.deep_view().to_set() == union_upto(s, i as int).union(rs.deep_view().take(k as int).to_set()),
            {
                let ghost before = out.deep_view();
                let r = rs[k].as_str();
                proof {
                    before.lemma_push_to_set_commute(r@);
                    rs.deep_view().take(k as int).lemma_push_to_set_commute(r@);
                }
                if !contains_str(&out, r) {
                    out.push(rs[k].clone());
                    assert(out.deep_view() =~= before.push(r@));
                } else {
                    assert(before.to_set().contains(r@));
                }
                assert(rs.deep_view().take(k + 1) =~= rs.deep_view().take(k as int).push(r@));
                assert(out.deep_view().to_set() =~= union_upto(s, i as int).union(rs.deep_view().take(k + 1).to_set()));
            }
            assert(rs.deep_view().take(rs.len() as int) =~= rs.deep_view());
            assert(out.deep_view().to_set() =~= union_upto(s, i + 1));
        }
        proof {
            lemma_union_all(s);
        }
        out
    }

    /// The requests that fetch the unknown ids.
    pub fn to_filters(&self) -> (res: Vec<UnknownFilter>)
        requires
            self.wf(),
        ensures
            filters_spec(res@, self@),
    {
        let ghost s = self.ids@;
        let mut notes: Vec<[u8; 32]> = Vec::new();
        let mut profs: Vec<[u8; 32]> = Vec::new();
        for i in 0..self.ids.len()
            invariant
                s == self.ids@,
                entries_wf(s),
                no_dup_ids(notes@),
                no_dup_ids(profs@),
                forall|x: [u8; 32]| #[trigger] notes@.contains(x) <==> exists|j: int|
                    0 <= j < i && s[j].id == UnknownId::NoteId(x),
                forall|x: [u8; 32]| #[trigger] profs@.contains(x) <==> exists|j: int|
                    0 <= j < i && s[j].id == UnknownId::Profile(x),
        {
            match self.ids[i].id {
                UnknownId::NoteId(x) => {
                    assert(!notes@.contains(x)) by {
                        if notes@.contains(x) {
                            let j = choose|j: int| 0 <= j < i && s[j].id == UnknownId::NoteId(x);
                            assert(s[j].id == s[i as int].id);
                        }
                    }
                    let ghost before = notes@;
                    notes.push(x);
                    assert(notes@ == before.push(x));
                    assert forall|y: [u8; 32]| #[trigger] notes@.contains(y) <==> exists|j: int|
                        0 <= j < i + 1 && s[j].id == UnknownId::NoteId(y) by {
                        lemma_push_contains(before, x, y);
                        assert(before.contains(y) <==> exists|j: int| 0 <= j < i && s[j].id == UnknownId::NoteId(y));
                        if exists|j: int| 0 <= j < i + 1 && s[j].id == UnknownId::NoteId(y) {
                            let j = choose|j: int| 0 <= j < i + 1 && s[j].id == UnknownId::NoteId(y);
                            if j == i {
                                assert(y == x);
                            }
                        }
                        if y == x {
                            assert(s[i as int].id == UnknownId::NoteId(y));
                        }
                    }
                    assert forall|y: [u8; 32]| #[trigger] profs@.contains(y) <==> exists|j: int|
                        0 <= j < i + 1 && s[j].id == UnknownId::Profile(y) by {
                        assert(profs@.contains(y) <==> exists|j: int| 0 <= j < i && s[j].id == UnknownId::Profile(y));
                        if exists|j: int| 0 <= j < i + 1 && s[j].id == UnknownId::Profile(y) {
                            let j = choose|j: int| 0 <= j < i + 1 && s[j].id == UnknownId::Profile(y);
                            assert(j != i);
                        }
                    }
                    assert(no_dup_ids(notes@)) by {
                        assert forall|p: int, q: int| 0 <= p < q < notes@.len() implies #[trigger] notes@[p] != #[trigger] notes@[q] by {
                            if q == notes@.len() - 1 {
                                assert(before[p] == notes@[p]);
                                assert(before.contains(notes@[p]));
                            } else {
                                assert(before[p] == notes@[p] && before[q] == notes@[q]);
                            }
                        }
                    }
                },
                UnknownId::Profile(x) => {
                    assert(!profs@.contains(x)) by {
                        if profs@.contains(x) {
                            let j = choose|j: int| 0 <= j < i && s[j].id == UnknownId::Profile(x);
                            assert(s[j].id == s[i as int].id);
                        }
                    }
                    let ghost before = profs@;
                    profs.push(x);
                    assert(profs@ == before.push(x));
                    assert forall|y: [u8; 32]| #[trigger] profs@.contains(y) <==> exists|j: int|
                        0 <= j < i + 1 && s[j].id == UnknownId::Profile(y) by {
                        lemma_push_contains(before, x, y);
                        assert(before.contains(y) <==> exists|j: int| 0 <= j < i && s[j].id == UnknownId::Profile(y));
                        if exists|j: int| 0 <= j < i + 1 && s[j].id == UnknownId::Profile(y) {
                            let j = choose|j: int| 0 <= j < i + 1 && s[j].id == UnknownId::Profile(y);
                            if j == i {
                                assert(y == x);
                            }
                        }
                        if y == x {
                            assert(s[i as int].id == UnknownId::Profile(y));
                        }
                    }
                    assert forall|y: [u8; 32]| #[trigger] notes@.contains(y) <==> exists|j: int|
                        0 <= j < i + 1 && s[j].id == UnknownId::NoteId(y) by {
                        assert(notes@.contains(y) <==> exists|j: int| 0 <= j < i && s[j].id == UnknownId::NoteId(y));
                        if exists|j: int| 0 <= j < i + 1 && s[j].id == UnknownId::NoteId(y) {
                            let j = choose|j: int| 0 <= j < i + 1 && s[j].id == UnknownId::NoteId(y);
                            assert(j != i);
                        }
                    }
                    assert(no_dup_ids(profs@)) by {
                        assert forall|p: int, q: int| 0 <= p < q < profs@.len() implies #[trigger] profs@[p] != #[trigger] profs@[q] by {
                            if q == profs@.len() - 1 {
                                assert(before[p] == profs@[p]);
                                assert(before.contains(profs@[p]));
                            } else {
                                assert(before[p] == profs@[p] && before[q] == profs@[q]);
                            }
                        }
                    }
                },
            }
        }
        let ghost m = self@;
        proof {
            lemma_map_of_dom(s);
            assert(notes@.to_set() =~= note_keys(m));
            assert(profs@.to_set() =~= profile_keys(m));
        }
        let mut res: Vec<UnknownFilter> = Vec::new();
        let has_notes = notes.len() > 0;
        let has_profs = profs.len() > 0;
        proof {
            if has_notes {
                assert(note_keys(m).contains(notes@[0]));
            } else {
                assert(note_keys(m) =~= Set::empty());
            }
            if has_profs {
                assert(profile_keys(m).contains(profs@[0]));
            } else {
                assert(profile_keys(m) =~= Set::empty());
            }
        }
        if has_notes {
            res.push(UnknownFilter::Notes(notes));
        }
        if has_profs {
            res.push(UnknownFilter::Profiles(profs));
        }
        res
    }
}


/// Adding the same relays for the same id twice changes nothing the
/// second time.
pub proof fn lemma_add_relays_idempotent(m: Map<UnknownId, Set<Seq<char>>>, k: UnknownId, rs: Set<Seq<char>>)
    ensures
        add_relays(add_relays(m, k, rs), k, rs) == add_relays(m, k, rs),
{
    let once = add_relays(m, k, rs);
    assert(relays_at(once, k) == relays_at(m, k).union(rs));
    assert(relays_at(once, k).union(rs) =~= relays_at(m, k).union(rs));
    assert(add_relays(once, k, rs) =~= once);
}

/// An id the store already has is never recorded as unknown.
pub proof fn lemma_present_not_added(m: Map<UnknownId, Set<Seq<char>>>, id: [u8; 32], rs: Set<Seq<char>>, pk: [u8; 32])
    ensures
        note_if_missing(m, id, rs, true) == m,
        profile_if_missing(m, pk, true) == m,
{
}


/// `m2` holds every id of `m1` with at least its relays.
pub open spec fn holds_all(m1: Map<UnknownId, Set<Seq<char>>>, m2: Map<UnknownId, Set<Seq<char>>>) -> bool {
    forall|k: UnknownId| #[trigger] m1.dom().contains(k) ==> m2.dom().contains(k) && m1[k].subset_of(m2[k])
}

/// `m` holds the id `k` with at least the relays `rs`.
pub open spec fn holds(m: Map<UnknownId, Set<Seq<char>>>, k: UnknownId, rs: Set<Seq<char>>) -> bool {
    m.dom().contains(k) && rs.subset_of(m[k])
}

/// What a mention in a note's content asks of the unknowns, given what the
/// store holds: a mentioned profile the store lacks (with the mention's
/// relays), a mentioned note the store lacks (with its relays, and the
/// author it names when that profile is lacking too), or the author of a
/// stored mentioned note whose profile the store lacks.
pub open spec fn mention_covered(r: Map<UnknownId, Set<Seq<char>>>, b: Block, notes: Seq<StoredRef>, profiles: Seq<[u8; 32]>) -> bool {
    match b {
        Block::MentionBech32 { mention, .. } => match mention {
            Mention::Pubkey(pk) => !has_profile(profiles, pk) ==> holds(r, UnknownId::Profile(pk), Set::empty()),
            Mention::Profile { pubkey, relays } => !has_profile(profiles, pubkey) ==> holds(
                r,
                UnknownId::Profile(pubkey),
                parsed_relays(relays.deep_view()),
            ),
            Mention::Event { id, author, relays } => match stored_author(notes, id) {
                None => holds(r, UnknownId::NoteId(id), parsed_relays(relays.deep_view())) && match author {
                    Some(pk) => !has_profile(profiles, pk) ==> holds(
                        r,
                        UnknownId::Profile(pk),
                        parsed_relays(relays.deep_view()),
                    ),
                    None => true,
                },
                Some(a) => !has_profile(profiles, a) ==> holds(
                    r,
                    UnknownId::Profile(a),
                    parsed_relays(relays.deep_view()),
                ),
            },
            Mention::Note(id) => match stored_author(notes, id) {
                None => holds(r, UnknownId::NoteId(id), Set::empty()),
                Some(a) => !has_profile(profiles, a) ==> holds(r, UnknownId::Profile(a), Set::empty()),
            },
            _ => true,
        },
        _ => true,
    }
}

proof fn lemma_add_relays_holds(m: Map<UnknownId, Set<Seq<char>>>, k: UnknownId, rs: Set<Seq<char>>)
    ensures
        holds_all(m, add_relays(m, k, rs)),
        holds(add_relays(m, k, rs), k, rs),
{
}

proof fn lemma_holds_all_trans(
    m1: Map<UnknownId, Set<Seq<char>>>,
    m2: Map<UnknownId, Set<Seq<char>>>,
    m3: Map<UnknownId, Set<Seq<char>>>,
)
    requires
        holds_all(m1, m2),
        holds_all(m2, m3),
    ensures
        holds_all(m1, m3),
{
    assert forall|k: UnknownId| #[trigger] m1.dom().contains(k) implies m3.dom().contains(k)
        && m1[k].subset_of(m3[k]) by {
        assert(m2.dom().contains(k));
    }
}

proof fn lemma_mention_unknowns(m: Map<UnknownId, Set<Seq<char>>>, b: Block, notes: Seq<StoredRef>, profiles: Seq<[u8; 32]>)
    ensures
        holds_all(m, mention_unknowns(m, b, notes, profiles)),
        mention_covered(mention_unknowns(m, b, notes, profiles), b, notes, profiles),
{
    match b {
        Block::MentionBech32 { mention, .. } => match mention {
            Mention::Pubkey(pk) => lemma_add_relays_holds(m, UnknownId::Profile(pk), Set::empty()),
            Mention::Profile { pubkey, relays } => lemma_add_relays_holds(
                m,
                UnknownId::Profile(pubkey),
                parsed_relays(relays.deep_view()),
            ),
            Mention::Event { id, author, relays } => {
                let rs = parsed_relays(relays.deep_view());
                match stored_author(notes, id) {
                    None => {
                        let m1 = add_relays(m, UnknownId::NoteId(id), rs);
                        lemma_add_relays_holds(m, UnknownId::NoteId(id), rs);
                        if let Some(pk) = author {
                            lemma_add_relays_holds(m1, UnknownId::Profile(pk), rs);
                            lemma_holds_all_trans(m, m1, add_relays(m1, UnknownId::Profile(pk), rs));
                        }
                    },
                    Some(a) => lemma_add_relays_holds(m, UnknownId::Profile(a), rs),
                }
            },
            Mention::Note(id) => {
                lemma_add_relays_holds(m, UnknownId::NoteId(id), Set::empty());
                if let Some(a) = stored_author(notes, id) {
                    lemma_add_relays_holds(m, UnknownId::Profile(a), Set::empty());
                }
            },
            _ => {},
        },
        _ => {},
    }
}

proof fn lemma_covered_kept(
    r1: Map<UnknownId, Set<Seq<char>>>,
    r2: Map<UnknownId, Set<Seq<char>>>,
    b: Block,
    notes: Seq<StoredRef>,
    profiles: Seq<[u8; 32]>,
)
    requires
        mention_covered(r1, b, notes, profiles),
        holds_all(r1, r2),
    ensures
        mention_covered(r2, b, notes, profiles),
{
    assert forall|k: UnknownId, rs: Set<Seq<char>>| holds(r1, k, rs) implies holds(r2, k, rs) by {
        assert(r1.dom().contains(k));
    }
}

proof fn lemma_blocks_unknowns(m: Map<UnknownId, Set<Seq<char>>>, bs: Seq<Block>, notes: Seq<StoredRef>, profiles: Seq<[u8; 32]>)
    ensures
        holds_all(m, blocks_unknowns(m, bs, notes, profiles)),
        forall|i: int| 0 <= i < bs.len() ==> mention_covered(
            blocks_unknowns(m, bs, notes, profiles),
            #[trigger] bs[i],
            notes,
            profiles,
        ),
    decreases bs.len(),
{
    if bs.len() > 0 {
        let front = bs.drop_last();
        let m1 = blocks_unknowns(m, front, notes, profiles);
        let r = blocks_unknowns(m, bs, notes, profiles);
        lemma_blocks_unknowns(m, front, notes, profiles);
        lemma_mention_unknowns(m1, bs.last(), notes, profiles);
        lemma_holds_all_trans(m, m1, r);
        assert forall|i: int| 0 <= i < bs.len() implies mention_covered(r, #[trigger] bs[i], notes, profiles) by {
            if i < bs.len() - 1 {
                assert(bs[i] == front[i]);
                lemma_covered_kept(m1, r, bs[i], notes, profiles);
            }
        }
    } else {
        assert(holds_all(m, m));
    }
}

/// Collecting from a note keeps every unknown already collected (with its
/// relays) and adds all that the note needs and the store lacks: the
/// author's profile, the thread root and the reply target (with their
/// relay hints), and what each mention in its content asks for (see
/// `mention_covered`): a mentioned `nprofile` with each of its relays that
/// parses, a mentioned `nevent` with its relays, and so on.
pub proof fn lemma_note_unknowns_cover(
    m: Map<UnknownId, Set<Seq<char>>>,
    author: [u8; 32],
    root: Option<ThreadRef>,
    reply: Option<ThreadRef>,
    blocks: Option<Vec<Block>>,
    notes: Seq<StoredRef>,
    profiles: Seq<[u8; 32]>,
)
    ensures
        holds_all(m, note_unknowns(m, author, root, reply, blocks, notes, profiles)),
        !has_profile(profiles, author) ==> holds(
            note_unknowns(m, author, root, reply, blocks, notes, profiles),
            UnknownId::Profile(author),
            Set::empty(),
        ),
        match root {
            Some(t) => stored_author(notes, t.id) is None ==> holds(
                note_unknowns(m, author, root, reply, blocks, notes, profiles),
                UnknownId::NoteId(t.id),
                hint_set(t.relay),
            ),
            None => true,
        },
        match reply {
            Some(t) => stored_author(notes, t.id) is None ==> holds(
                note_unknowns(m, author, root, reply, blocks, notes, profiles),
                UnknownId::NoteId(t.id),
                hint_set(t.relay),
            ),
            None => true,
        },
        match blocks {
            Some(bs) => forall|i: int| 0 <= i < bs.len() ==> mention_covered(
                note_unknowns(m, author, root, reply, blocks, notes, profiles),
                #[trigger] bs@[i],
                notes,
                profiles,
            ),
            None => true,
        },
{
    let m1 = profile_if_missing(m, author, has_profile(profiles, author));
    let m2 = thread_unknowns(m1, root, notes);
    let m3 = thread_unknowns(m2, reply, notes);
    let r = note_unknowns(m, author, root, reply, blocks, notes, profiles);
    lemma_add_relays_holds(m, UnknownId::Profile(author), Set::empty());
    assert(holds_all(m, m1));
    if let Some(t) = root {
        lemma_add_relays_holds(m1, UnknownId::NoteId(t.id), hint_set(t.relay));
    }
    assert(holds_all(m1, m2));
    lemma_holds_all_trans(m, m1, m2);
    if let Some(t) = reply {
        lemma_add_relays_holds(m2, UnknownId::NoteId(t.id), hint_set(t.relay));
    }
    assert(holds_all(m2, m3));
    lemma_holds_all_trans(m, m2, m3);
    match blocks {
        Some(bs) => {
            lemma_blocks_unknowns(m3, bs@, notes, profiles);
        },
        None => {
            assert(holds_all(m3, m3));
        },
    }
    assert(holds_all(m3, r));
    lemma_holds_all_trans(m, m3, r);
    lemma_holds_all_trans(m1, m3, r);
    lemma_holds_all_trans(m2, m3, r);
    assert forall|k: UnknownId, rs: Set<Seq<char>>| holds(m1, k, rs) implies holds(r, k, rs) by {
        assert(m1.dom().contains(k));
    }
    assert forall|k: UnknownId, rs: Set<Seq<char>>| holds(m2, k, rs) implies holds(r, k, rs) by {
        assert(m2.dom().contains(k));
    }
    assert forall|k: UnknownId, rs: Set<Seq<char>>| holds(m3, k, rs) implies holds(r, k, rs) by {
        assert(m3.dom().contains(k));
    }
}


/// The id `k` is one that the mention block `b` needs and the store lacks.
pub open spec fn mention_needs(k: UnknownId, b: Block, notes: Seq<StoredRef>, profiles: Seq<[u8; 32]>) -> bool {
    match b {
        Block::MentionBech32 { mention, .. } => match mention {
            Mention::Pubkey(pk) => k == UnknownId::Profile(pk) && !has_profile(profiles, pk),
            Mention::Profile { pubkey, .. } => k == UnknownId::Profile(pubkey) && !has_profile(
                profiles,
                pubkey,
            ),
            Mention::Event { id, author, .. } => match stored_author(notes, id) {
                None => k == UnknownId::NoteId(id) || match author {
                    Some(pk) => k == UnknownId::Profile(pk) && !has_profile(profiles, pk),
                    None => false,
                },
                Some(a) => k == UnknownId::Profile(a) && !has_profile(profiles, a),
            },
            Mention::Note(id) => match stored_author(notes, id) {
                None => k == UnknownId::NoteId(id),
                Some(a) => k == UnknownId::Profile(a) && !has_profile(profiles, a),
            },
            _ => false,
        },
        _ => false,
    }
}

/// The id `k` is one that a note needs and the store lacks: its author's
/// profile, its thread root or reply target, or what a mention needs.
pub open spec fn note_needs(
    k: UnknownId,
    author: [u8; 32],
    root: Option<ThreadRef>,
    reply: Option<ThreadRef>,
    blocks: Option<Vec<Block>>,
    notes: Seq<StoredRef>,
    profiles: Seq<[u8; 32]>,
) -> bool {
    ||| k == UnknownId::Profile(author) && !has_profile(profiles, author)
    ||| (match root {
        Some(t) => k == UnknownId::NoteId(t.id) && stored_author(notes, t.id) is None,
        None => false,
    })
    ||| (match reply {
        Some(t) => k == UnknownId::NoteId(t.id) && stored_author(notes, t.id) is None,
        None => false,
    })
    ||| (match blocks {
        Some(bs) => exists|i: int| 0 <= i < bs.len() && mention_needs(k, #[trigger] bs@[i], notes, profiles),
        None => false,
    })
}

proof fn lemma_mention_only_needed(m: Map<UnknownId, Set<Seq<char>>>, b: Block, notes: Seq<StoredRef>, profiles: Seq<[u8; 32]>)
    ensures
        forall|k: UnknownId| #[trigger] mention_unknowns(m, b, notes, profiles).dom().contains(k) ==> m.dom().contains(k)
            || mention_needs(k, b, notes, profiles),
{
}

proof fn lemma_blocks_only_needed(m: Map<UnknownId, Set<Seq<char>>>, bs: Seq<Block>, notes: Seq<StoredRef>, profiles: Seq<[u8; 32]>)
    ensures
        forall|k: UnknownId| #[trigger] blocks_unknowns(m, bs, notes, profiles).dom().contains(k) ==> m.dom().contains(k)
            || exists|i: int| 0 <= i < bs.len() && mention_needs(k, #[trigger] bs[i], notes, profiles),
    decreases bs.len(),
{
    if bs.len() > 0 {
        let front = bs.drop_last();
        let m1 = blocks_unknowns(m, front, notes, profiles);
        lemma_blocks_only_needed(m, front, notes, profiles);
        lemma_mention_only_needed(m1, bs.last(), notes, profiles);
        assert forall|k: UnknownId| #[trigger] blocks_unknowns(m, bs, notes, profiles).dom().contains(k)
            && !m.dom().contains(k) implies exists|i: int| 0 <= i < bs.len() && mention_needs(k, #[trigger] bs[i], notes, profiles) by {
            if m1.dom().contains(k) {
                let i = choose|i: int| 0 <= i < front.len() && mention_needs(k, #[trigger] front[i], notes, profiles);
                assert(bs[i] == front[i]);
            } else {
                assert(mention_needs(k, bs[bs.len() - 1], notes, profiles));
            }
        }
    }
}

/// Collecting from a note adds no id beyond those the note needs and the
/// store lacks: every id afterwards was collected before or is needed by
/// the note.
pub proof fn lemma_note_unknowns_only_needed(
    m: Map<UnknownId, Set<Seq<char>>>,
    author: [u8; 32],
    root: Option<ThreadRef>,
    reply: Option<ThreadRef>,
    blocks: Option<Vec<Block>>,
    notes: Seq<StoredRef>,
    profiles: Seq<[u8; 32]>,
)
    ensures
        forall|k: UnknownId| #[trigger] note_unknowns(m, author, root, reply, blocks, notes, profiles).dom().contains(k)
            ==> m.dom().contains(k) || note_needs(k, author, root, reply, blocks, notes, profiles),
{
    let m1 = profile_if_missing(m, author, has_profile(profiles, author));
    let m2 = thread_unknowns(m1, root, notes);
    let m3 = thread_unknowns(m2, reply, notes);
    let r = note_unknowns(m, author, root, reply, blocks, notes, profiles);
    if let Some(bs) = blocks {
        lemma_blocks_only_needed(m3, bs@, notes, profiles);
    }
    assert forall|k: UnknownId| #[trigger] r.dom().contains(k) && !m.dom().contains(k) implies note_needs(
        k,
        author,
        root,
        reply,
        blocks,
        notes,
        profiles,
    ) by {
        if !m3.dom().contains(k) {
            if let Some(bs) = blocks {
                let i = choose|i: int| 0 <= i < bs@.len() && mention_needs(k, #[trigger] bs@[i], notes, profiles);
                assert(bs@[i] == bs@[i]);
            }
        }
    }
}

} // verus!
