//! Relay lists: merging a user's published relays with their read/write
//! markers, learning relay hints from events, and remembering which relays
//! the pool already knows.
use vstd::prelude::*;
use crate::text::{trim, trim_seq, ascii_lower_seq, chars_of, lower_ascii_vec, str_eq, seq_eq};
use crate::note::{TagItem, tag_str, get_str, tag_str_is};
use crate::nip19::{parse_relay, spec_parse_relay, opt_view};

verus! {

/// A relay from a user's relay list and how they use it.
#[derive(Debug)]
pub struct RelayEntry {
    pub url: String,
    pub read: bool,
    pub write: bool,
}

pub open spec fn entry_view(e: RelayEntry) -> (Seq<char>, bool, bool) {
    (e.url@, e.read, e.write)
}

pub open spec fn entries_view(v: Seq<RelayEntry>) -> Seq<(Seq<char>, bool, bool)> {
    v.map_values(|e: RelayEntry| entry_view(e))
}

/// No two entries name the same relay.
pub open spec fn distinct_urls(v: Seq<(Seq<char>, bool, bool)>) -> bool {
    forall|i: int, j: int| 0 <= i < j < v.len() ==> #[trigger] v[i].0 != #[trigger] v[j].0
}

/// The read/write use that a marker states: `read`, `write`, or (any other
/// marker, or none) both; the marker is trimmed and lowered first.
pub open spec fn marker_use(marker: Option<Seq<char>>) -> (bool, bool) {
    match marker {
        Some(m) => {
            let v = ascii_lower_seq(trim_seq(m));
            if v == "read"@ {
                (true, false)
            } else if v == "write"@ {
                (false, true)
            } else {
                (true, true)
            }
        },
        None => (true, true),
    }
}

/// The index of the first entry for `url`, or the length when there is
/// none.
pub open spec fn first_url_index(entries: Seq<(Seq<char>, bool, bool)>, url: Seq<char>) -> int
    decreases entries.len(),
{
    if entries.len() == 0 {
        0
    } else if entries[0].0 == url {
        0
    } else {
        1 + first_url_index(entries.drop_first(), url)
    }
}

proof fn lemma_first_url_index(entries: Seq<(Seq<char>, bool, bool)>, url: Seq<char>, i: int)
    requires
        0 <= i <= entries.len(),
        forall|j: int| 0 <= j < i ==> #[trigger] entries[j].0 != url,
        i < entries.len() ==> entries[i].0 == url,
    ensures
        first_url_index(entries, url) == i,
    decreases i,
{
    if i > 0 {
        assert forall|j: int| 0 <= j < i - 1 implies #[trigger] entries.drop_first()[j].0 != url by {
            assert(entries.drop_first()[j] == entries[j + 1]);
        }
        lemma_first_url_index(entries.drop_first(), url, i - 1);
    }
}

/// `entries` after merging relay `url` with `marker`: nothing when the
/// trimmed url is empty; the uses are added to the first entry for the
/// same url; else a new entry goes at the end.
pub open spec fn merge_spec(entries: Seq<(Seq<char>, bool, bool)>, url: Seq<char>, marker: Option<Seq<char>>) -> Seq<(Seq<char>, bool, bool)> {
    let cleaned = trim_seq(url);
    let (r, w) = marker_use(marker);
    let i = first_url_index(entries, cleaned);
    if cleaned.len() == 0 {
        entries
    } else if i < entries.len() {
        entries.update(i, (cleaned, entries[i].1 || r, entries[i].2 || w))
    } else {
        entries.push((cleaned, r, w))
    }
}

fn marker_flags(marker: Option<&str>) -> (res: (bool, bool))
    ensures
        res == marker_use(match marker {
            Some(m) => Some(m@),
            None => None,
        }),
{
    match marker {
        Some(value) => {
            let t = trim(value);
            let tv = chars_of(t.as_str());
            let lowered = lower_ascii_vec(&tv);
            let read = chars_of("read");
            let write = chars_of("write");
            if seq_eq(&lowered, &read) {
                (true, false)
            } else if seq_eq(&lowered, &write) {
                (false, true)
            } else {
                (true, true)
            }
        },
        None => (true, true),
    }
}

/// Merges a relay from a relay list into `relays`.
pub fn merge_relay_entry(relays: &mut Vec<RelayEntry>, url: &str, marker: Option<&str>)
    ensures
        entries_view(final(relays)@) == merge_spec(
            entries_view(old(relays)@),
            url@,
            match marker {
                Some(m) => Some(m@),
                None => None,
            },
        ),
        distinct_urls(entries_view(old(relays)@)) ==> distinct_urls(entries_view(final(relays)@)),
{
    let cleaned_url = trim(url);
    if cleaned_url.as_str().unicode_len() == 0 {
        return;
    }
    let (read, write) = marker_flags(marker);
    let ghost ev = entries_view(relays@);
    let mut i: usize = 0;
    while i < relays.len()
        invariant
            i <= relays.len(),
            relays@ == old(relays)@,
            ev == entries_view(relays@),
            ev == entries_view(old(relays)@),
            cleaned_url@ == trim_seq(url@),
            cleaned_url@.len() > 0,
            (read, write) == marker_use(match marker {
                Some(m) => Some(m@),
                None => None,
            }),
            forall|j: int| 0 <= j < i ==> ev[j].0 != cleaned_url@,
        decreases relays.len() - i,
    {
        if str_eq(relays[i].url.as_str(), cleaned_url.as_str()) {
            let ghost before = relays@;
            relays[i].read = relays[i].read || read;
            relays[i].write = relays[i].write || write;
            proof {
                assert(ev[i as int].0 == cleaned_url@);
                lemma_first_url_index(ev, cleaned_url@, i as int);
                assert(entries_view(relays@) =~= ev.update(
                    i as int,
                    (cleaned_url@, ev[i as int].1 || read, ev[i as int].2 || write),
                ));
            }
            return;
        }
        i = i + 1;
    }
    let ghost cu = cleaned_url@;
    proof {
        lemma_first_url_index(ev, cu, ev.len() as int);
    }
    relays.push(RelayEntry { url: cleaned_url, read, write });
    assert(entries_view(relays@) =~= ev.push((trim_seq(url@), read, write)));
}

/// The relay list in a relay-list note's tags: every `r` tag whose first
/// two elements are text, merged in order, with the third element (when
/// text) as the marker.
pub open spec fn relay_list_spec(tags: Seq<Vec<TagItem>>) -> Seq<(Seq<char>, bool, bool)>
    decreases tags.len(),
{
    if tags.len() == 0 {
        Seq::empty()
    } else {
        let prev = relay_list_spec(tags.drop_last());
        let t = tags.last()@;
        if tag_str(t, 0) == Some("r"@) && tag_str(t, 1) is Some {
            merge_spec(prev, tag_str(t, 1)->0, tag_str(t, 2))
        } else {
            prev
        }
    }
}

/// Reads a relay list note's tags into relay entries.
pub fn relay_entries_from_tags(tags: &Vec<Vec<TagItem>>) -> (res: Vec<RelayEntry>)
    ensures
        entries_view(res@) == relay_list_spec(tags@),
        distinct_urls(entries_view(res@)),
{
    let mut entries: Vec<RelayEntry> = Vec::new();
    assert(entries_view(entries@) =~= Seq::<(Seq<char>, bool, bool)>::empty());
    for i in 0..tags.len()
        invariant
            entries_view(entries@) == relay_list_spec(tags@.take(i as int)),
            distinct_urls(entries_view(entries@)),
    {
        assert(tags@.take(i + 1).drop_last() =~= tags@.take(i as int));
        let tag = &tags[i];
        if tag_str_is(tag, 0, "r") {
            match get_str(tag, 1) {
                Some(url) => {
                    let marker = get_str(tag, 2);
                    match marker {
                        Some(m) => merge_relay_entry(&mut entries, url.as_str(), Some(m.as_str())),
                        None => merge_relay_entry(&mut entries, url.as_str(), None),
                    }
                },
                None => {},
            }
        }
    }
    assert(tags@.take(tags.len() as int) =~= tags@);
    entries
}

/// The index of the latest of some creation times, the last one on ties;
/// `None` when there are none.
pub fn latest_index(created: &Vec<u64>) -> (res: Option<usize>)
    ensures
        match res {
            None => created@.len() == 0,
            Some(i) => i < created@.len() && (forall|j: int|
                0 <= j < created@.len() ==> created@[j] <= created@[i as int]) && (forall|j: int|
                i < j < created@.len() ==> created@[j] < created@[i as int]),
        },
{
    let mut best: Option<usize> = None;
    let mut latest: u64 = 0;
    for k in 0..created.len()
        invariant
            match best {
                None => k == 0,
                Some(b) => b < k && latest == created@[b as int] && (forall|j: int|
                    0 <= j < k ==> created@[j] <= latest) && (forall|j: int|
                    b < j < k ==> created@[j] < latest),
            },
            k > 0 ==> best is Some,
    {
        if best.is_none() || created[k] >= latest {
            latest = created[k];
            best = Some(k);
        }
    }
    best
}

/// The relay texts of the hints in an event's tags, in order: the second
/// element of `r`, `relay` and `relays` tags, and for contact lists (kind 3)
/// the third element of any other tag; empty candidates and those that do
/// not parse as relay URLs are left out.
pub open spec fn hint_candidate(kind: u16, tag: Seq<String>) -> Option<Seq<char>> {
    if tag.len() == 0 {
        None
    } else if tag[0]@ == "r"@ || tag[0]@ == "relay"@ || tag[0]@ == "relays"@ {
        if tag.len() > 1 {
            Some(tag[1]@)
        } else {
            None
        }
    } else if kind == 3 {
        if tag.len() > 2 {
            Some(tag[2]@)
        } else {
            None
        }
    } else {
        None
    }
}

pub open spec fn relay_hints_spec(kind: u16, tags: Seq<Vec<String>>) -> Seq<Seq<char>>
    decreases tags.len(),
{
    if tags.len() == 0 {
        Seq::empty()
    } else {
        let prev = relay_hints_spec(kind, tags.drop_last());
        match hint_candidate(kind, tags.last()@) {
            Some(c) => if c.len() > 0 && spec_parse_relay(c) is Some {
                prev.push(spec_parse_relay(c)->0)
            } else {
                prev
            },
            None => prev,
        }
    }
}

/// Collects relay hints from an event of `kind` with string tags.
pub fn collect_relay_hints(kind: u16, tags: &Vec<Vec<String>>) -> (res: Vec<String>)
    ensures
        res.deep_view() == relay_hints_spec(kind, tags@),
{
    let mut relays: Vec<String> = Vec::new();
    for i in 0..tags.len()
        invariant
            relays.deep_view() == relay_hints_spec(kind, tags@.take(i as int)),
    {
        assert(tags@.take(i + 1).drop_last() =~= tags@.take(i as int));
        let parts = &tags[i];
        let candidate: Option<&String> = if parts.len() == 0 {
            None
        } else if str_eq(parts[0].as_str(), "r") || str_eq(parts[0].as_str(), "relay") || str_eq(
            parts[0].as_str(),
            "relays",
        ) {
            if parts.len() > 1 {
                Some(&parts[1])
            } else {
                None
            }
        } else if kind == 3 {
            if parts.len() > 2 {
                Some(&parts[2])
            } else {
                None
            }
        } else {
            None
        };
        let ghost before = relays.deep_view();
        match candidate {
            Some(url) => {
                if url.as_str().unicode_len() > 0 {
                    match parse_relay(url.as_str()) {
                        Some(r) => {
                            relays.push(r);
                            assert(relays.deep_view() =~= before.push(r@));
                        },
                        None => {},
                    }
                }
            },
            None => {},
        }
    }
    assert(tags@.take(tags.len() as int) =~= tags@);
    relays
}

/// The relays among `relays` that are new to `known`, each once, in the
/// order they first appear.
pub open spec fn new_relays_spec(known: Seq<Seq<char>>, relays: Seq<Seq<char>>) -> Seq<Seq<char>>
    decreases relays.len(),
{
    if relays.len() == 0 {
        Seq::empty()
    } else {
        let prev = new_relays_spec(known, relays.drop_last());
        let r = relays.last();
        if known.contains(r) || prev.contains(r) {
            prev
        } else {
            prev.push(r)
        }
    }
}

/// The set of relay URLs (by text) a relay pool has been asked to use.
pub struct KnownRelays {
    pub urls: Vec<String>,
}

impl KnownRelays {
    /// No relay is known twice.
    pub open spec fn wf(&self) -> bool {
        forall|i: int, j: int|
            0 <= i < j < self.urls@.len() ==> #[trigger] self.urls@[i]@ != #[trigger] self.urls@[j]@
    }

    pub open spec fn known(&self) -> Seq<Seq<char>> {
        self.urls.deep_view()
    }

    pub fn new() -> (res: Self)
        ensures
            res.wf(),
            res.known().len() == 0,
    {
        KnownRelays { urls: Vec::new() }
    }

    fn contains(&self, url: &str) -> (res: bool)
        ensures
            res == self.known().contains(url@),
    {
        let mut i: usize = 0;
        while i < self.urls.len()
            invariant
                i <= self.urls.len(),
                forall|j: int| 0 <= j < i ==> self.urls@[j]@ != url@,
            decreases self.urls.len() - i,
        {
            if str_eq(self.urls[i].as_str(), url) {
                assert(self.known()[i as int] == url@);
                return true;
            }
            i = i + 1;
        }
        assert forall|j: int| 0 <= j < self.known().len() implies self.known()[j] != url@ by {
            assert(self.known()[j] == self.urls@[j]@);
        }
        false
    }

    /// Records `relays` as known and gives back those that were new, each
    /// once, in order (`RelayPool::ensure_relays`).
    pub fn ensure_relays(&mut self, relays: &Vec<String>) -> (res: Vec<String>)
        requires
            old(self).wf(),
        ensures
            final(self).wf(),
            res.deep_view() == new_relays_spec(old(self).known(), relays.deep_view()),
            final(self).known() == old(self).known() + res.deep_view(),
    {
        let mut fresh: Vec<String> = Vec::new();
        let ghost start = self.known();
        for i in 0..relays.len()
            invariant
                self.wf(),
                fresh.deep_view() == new_relays_spec(start, relays.deep_view().take(i as int)),
                self.known() == start + fresh.deep_view(),
        {
            let ghost rv = relays.deep_view();
            assert(rv.take(i + 1).drop_last() =~= rv.take(i as int));
            assert(rv.take(i + 1).last() == relays@[i as int]@);
            let r = &relays[i];
            if !self.contains(r.as_str()) {
                proof {
                    assert(!start.contains(r@)) by {
                        if start.contains(r@) {
                            let k = choose|k: int| 0 <= k < start.len() && start[k] == r@;
                            assert(self.known()[k] == r@);
                        }
                    }
                    assert(!fresh.deep_view().contains(r@)) by {
                        if fresh.deep_view().contains(r@) {
                            let k = choose|k: int| 0 <= k < fresh.deep_view().len() && fresh.deep_view()[k] == r@;
                            assert(self.known()[start.len() + k] == r@);
                        }
                    }
                }
                let ghost before_known = self.known();
                let ghost before_fresh = fresh.deep_view();
                let ghost before_urls = self.urls@;
                assert(!before_known.contains(r@));
                self.urls.push(r.clone());
                assert forall|a: int, b: int|
                    0 <= a < b < self.urls@.len() implies #[trigger] self.urls@[a]@ != #[trigger] self.urls@[b]@ by {
                    if b == before_urls.len() {
                        assert(before_known[a] == before_urls[a]@);
                    } else {
                        assert(before_urls[a]@ != before_urls[b]@);
                    }
                }
                fresh.push(r.clone());
                assert(fresh.deep_view() =~= before_fresh.push(r@));
                assert(self.known() =~= before_known.push(r@));
            } else {
                proof {
                    let k = choose|k: int| 0 <= k < self.known().len() && self.known()[k] == r@;
                    if k < start.len() {
                        assert(start.contains(r@));
                    } else {
                        assert(fresh.deep_view()[k - start.len()] == r@);
                        assert(fresh.deep_view().contains(r@));
                    }
                }
            }
        }
        assert(relays.deep_view().take(relays.len() as int) =~= relays.deep_view());
        fresh
    }
}


proof fn lemma_new_relays_cover(known: Seq<Seq<char>>, relays: Seq<Seq<char>>, r: Seq<char>)
    requires
        relays.contains(r),
    ensures
        known.contains(r) || new_relays_spec(known, relays).contains(r),
    decreases relays.len(),
{
    let prev = new_relays_spec(known, relays.drop_last());
    if relays.last() == r {
        if !known.contains(r) && !prev.contains(r) {
            assert(prev.push(r)[prev.len() as int] == r);
        }
    } else {
        let k = choose|k: int| 0 <= k < relays.len() && relays[k] == r;
        assert(relays.drop_last()[k] == r);
        lemma_new_relays_cover(known, relays.drop_last(), r);
        if prev.contains(r) {
            let q = choose|q: int| 0 <= q < prev.len() && prev[q] == r;
            if !known.contains(relays.last()) && !prev.contains(relays.last()) {
                assert(prev.push(relays.last())[q] == r);
            }
        }
    }
}

proof fn lemma_new_relays_none(known: Seq<Seq<char>>, relays: Seq<Seq<char>>)
    requires
        forall|i: int| 0 <= i < relays.len() ==> known.contains(#[trigger] relays[i]),
    ensures
        new_relays_spec(known, relays).len() == 0,
    decreases relays.len(),
{
    if relays.len() > 0 {
        assert(known.contains(relays[relays.len() - 1]));
        lemma_new_relays_none(known, relays.drop_last());
    }
}

/// Asking a relay pool for the same relays a second time connects to
/// nothing new: after the first request every one of them is known.
pub proof fn lemma_ensure_relays_twice(known: Seq<Seq<char>>, relays: Seq<Seq<char>>)
    ensures
        new_relays_spec(known + new_relays_spec(known, relays), relays).len() == 0,
{
    let after = known + new_relays_spec(known, relays);
    assert forall|i: int| 0 <= i < relays.len() implies after.contains(#[trigger] relays[i]) by {
        let r = relays[i];
        assert(relays.contains(r));
        lemma_new_relays_cover(known, relays, r);
        if known.contains(r) {
            let k = choose|k: int| 0 <= k < known.len() && known[k] == r;
            assert(after[k] == r);
        } else {
            let n = new_relays_spec(known, relays);
            let k = choose|k: int| 0 <= k < n.len() && n[k] == r;
            assert(after[known.len() + k] == r);
        }
    }
    lemma_new_relays_none(after, relays);
}

} // verus!
