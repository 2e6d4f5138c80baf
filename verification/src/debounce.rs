//! Debouncing background refreshes: per-resource refresh state, the
//! decision whether to start a refresh, and the key a resource is tracked
//! under.
use vstd::prelude::*;
use crate::nip19::{Nip19Ref, Nip19View};
use std::hash::{Hash, Hasher};

verus! {

/// Tracking maps are pruned once they hold more entries than this
pub const REFRESH_MAP_PRUNE_THRESHOLD: usize = 1000;

/// A refresh running longer than this (milliseconds) is taken to be stuck
pub const STUCK_REFRESH_MS: u64 = 600_000;

/// The refresh state of one resource; times are milliseconds on the
/// server's monotonic clock.
#[derive(Clone, Copy, Debug, PartialEq, Eq)]
pub enum RefreshState {
    /// A refresh started at this time is running
    InProgress { started: u64 },
    /// The last refresh completed at this time
    Completed(u64),
}

/// What to do about a requested refresh.
#[derive(Clone, Copy, Debug, PartialEq, Eq)]
pub enum RefreshAction {
    /// Leave it: one is running or one finished recently
    Skip,
    /// Start a refresh
    Spawn,
    /// Abort the stuck refresh and start a new one
    AbortAndSpawn,
}

/// Time from `t` to `now`, zero when `t` is later (`Instant::duration_since`).
pub open spec fn elapsed(now: u64, t: u64) -> int {
    if now >= t {
        now - t
    } else {
        0
    }
}

pub open spec fn action_spec(state: Option<RefreshState>, now: u64, interval: u64) -> RefreshAction {
    match state {
        None => RefreshAction::Spawn,
        Some(RefreshState::InProgress { started }) => if elapsed(now, started)
            < STUCK_REFRESH_MS {
            RefreshAction::Skip
        } else {
            RefreshAction::AbortAndSpawn
        },
        Some(RefreshState::Completed(t)) => if elapsed(now, t) < interval {
            RefreshAction::Skip
        } else {
            RefreshAction::Spawn
        },
    }
}

/// Decides whether a refresh of a resource in `state` starts at `now`, and
/// the resource's state afterwards: running since `now` when one starts,
/// else unchanged.
pub fn try_spawn_debounced(state: Option<RefreshState>, now: u64, interval: u64) -> (res: (
    RefreshAction,
    Option<RefreshState>,
))
    ensures
        res.0 == action_spec(state, now, interval),
        res.1 == (if res.0 == RefreshAction::Skip {
            state
        } else {
            Some(RefreshState::InProgress { started: now })
        }),
{
    let action = match state {
        None => RefreshAction::Spawn,
        Some(RefreshState::InProgress { started }) => {
            if now.saturating_sub(started) < STUCK_REFRESH_MS {
                RefreshAction::Skip
            } else {
                RefreshAction::AbortAndSpawn
            }
        },
        Some(RefreshState::Completed(t)) => {
            if now.saturating_sub(t) < interval {
                RefreshAction::Skip
            } else {
                RefreshAction::Spawn
            }
        },
    };
    match action {
        RefreshAction::Skip => (action, state),
        _ => (action, Some(RefreshState::InProgress { started: now })),
    }
}

pub open spec fn retain_spec(state: RefreshState, now: u64, interval: u64) -> bool {
    match state {
        RefreshState::InProgress { .. } => true,
        RefreshState::Completed(t) => elapsed(now, t) < interval,
    }
}

/// Whether pruning keeps an entry: running refreshes always, completed ones
/// while they are recent.
pub fn should_retain(state: RefreshState, now: u64, interval: u64) -> (res: bool)
    ensures
        res == retain_spec(state, now, interval),
{
    match state {
        RefreshState::InProgress { .. } => true,
        RefreshState::Completed(t) => now.saturating_sub(t) < interval,
    }
}

/// Whether a map of `len` entries is due for pruning.
pub fn needs_prune(len: usize) -> (res: bool)
    ensures
        res == (len > REFRESH_MAP_PRUNE_THRESHOLD),
{
    len > REFRESH_MAP_PRUNE_THRESHOLD
}

/// A pruned entry would not have stopped a refresh: whatever pruning drops
/// is an entry for which a refresh would start anyway.
pub proof fn lemma_prune_is_invisible(state: RefreshState, now: u64, interval: u64)
    ensures
        !retain_spec(state, now, interval) ==> action_spec(Some(state), now, interval)
            == action_spec(None, now, interval),
{
}

/// The state a map of refresh states holds for `key`, if any.
pub open spec fn state_of(m: Map<[u8; 32], RefreshState>, key: [u8; 32]) -> Option<RefreshState> {
    if m.dom().contains(key) {
        Some(m[key])
    } else {
        None
    }
}

/// A map of refresh states after the prune that precedes a debounced spawn
/// at `now`: when it holds more entries than the threshold, only those that
/// `should_retain` keeps; else unchanged.
pub open spec fn pruned_map(m: Map<[u8; 32], RefreshState>, now: u64, interval: u64) -> Map<
    [u8; 32],
    RefreshState,
> {
    if m.dom().len() > REFRESH_MAP_PRUNE_THRESHOLD {
        Map::new(|k: [u8; 32]| m.dom().contains(k) && retain_spec(m[k], now, interval), |k: [u8; 32]| m[k])
    } else {
        m
    }
}

/// Pruning a map of refresh states over the threshold removes every
/// completed refresh older than the interval, keeps every running one and
/// every recent one unchanged, adds nothing, and leaves the decision for
/// every key as it was.
pub proof fn lemma_prune_map(m: Map<[u8; 32], RefreshState>, now: u64, interval: u64)
    ensures
        forall|k: [u8; 32]| #[trigger] pruned_map(m, now, interval).dom().contains(k) ==> m.dom().contains(k)
            && pruned_map(m, now, interval)[k] == m[k],
        forall|k: [u8; 32]|
            m.dom().contains(k) && retain_spec(m[k], now, interval) ==> #[trigger] pruned_map(
                m,
                now,
                interval,
            ).dom().contains(k),
        m.dom().len() > REFRESH_MAP_PRUNE_THRESHOLD ==> forall|k: [u8; 32]| #[trigger] pruned_map(
            m,
            now,
            interval,
        ).dom().contains(k) ==> retain_spec(m[k], now, interval),
        forall|k: [u8; 32]|
            #[trigger] action_spec(state_of(pruned_map(m, now, interval), k), now, interval)
                == action_spec(state_of(m, k), now, interval),
{
    assert forall|k: [u8; 32]|
        #[trigger] action_spec(state_of(pruned_map(m, now, interval), k), now, interval)
            == action_spec(state_of(m, k), now, interval) by {
        if m.dom().contains(k) {
            lemma_prune_is_invisible(m[k], now, interval);
        }
    }
}

/// A resource whose refresh just started is not refreshed again until the
/// refresh is stuck.
pub proof fn lemma_spawn_then_skip(state: Option<RefreshState>, now: u64, later: u64, interval: u64)
    requires
        action_spec(state, now, interval) != RefreshAction::Skip,
        now <= later,
        later - now < STUCK_REFRESH_MS,
    ensures
        action_spec(Some(RefreshState::InProgress { started: now }), later, interval)
            == RefreshAction::Skip,
{
}

/// What `DefaultHasher` gives after hashing an address's author bytes, kind
/// and identifier in that order.
pub uninterp spec fn spec_coordinate_hash(pk: [u8; 32], kind: u16, identifier: Seq<char>) -> u64;

/// Hashes an address (author, kind, identifier) with `DefaultHasher`,
/// whose algorithm is fixed for a given build.
#[verifier::external_body]
pub(crate) fn coordinate_hash(pk: [u8; 32], kind: u16, identifier: &str) -> (res: u64)
    ensures
        res == spec_coordinate_hash(pk, kind, identifier@),
{
    let mut hasher = std::collections::hash_map::DefaultHasher::new();
    pk.hash(&mut hasher);
    kind.hash(&mut hasher);
    identifier.to_owned().hash(&mut hasher);
    hasher.finish()
}

/// Byte `i` (little-endian) of a 64-bit number.
pub open spec fn le_byte(h: u64, i: int) -> u8 {
    ((h >> (8 * i) as u64) & 0xff) as u8
}

/// The 32-byte key an address is tracked under: the eight little-endian
/// bytes of its hash, four times over.
pub open spec fn repeated_hash_key(h: u64) -> Seq<u8> {
    Seq::new(32, |i: int| le_byte(h, i % 8))
}

/// The key a resource is tracked under: its event id or public key, the
/// repeated hash of an address, zeros for a secret key.
pub open spec fn debounce_key_spec(n: Nip19View) -> Seq<u8> {
    match n {
        Nip19View::Event { id, .. } => id@,
        Nip19View::EventId(id) => id@,
        Nip19View::Pubkey(pk) => pk@,
        Nip19View::Profile { pubkey, .. } => pubkey@,
        Nip19View::Coordinate { kind, pubkey, identifier, .. } => repeated_hash_key(
            spec_coordinate_hash(pubkey, kind, identifier),
        ),
        Nip19View::Secret(_) => Seq::new(32, |i: int| 0u8),
    }
}

/// Derives the 32-byte key that deduplicates fetches of a resource.
pub fn nip19_debounce_key(n: &Nip19Ref) -> (res: [u8; 32])
    ensures
        res@ == debounce_key_spec(n@),
{
    match n {
        Nip19Ref::Event(id, _, _, _) => *id,
        Nip19Ref::EventId(id) => *id,
        Nip19Ref::Pubkey(pk) => *pk,
        Nip19Ref::Profile(pubkey, _) => *pubkey,
        Nip19Ref::Coordinate(kind, pubkey, identifier, _) => {
            let h = coordinate_hash(*pubkey, *kind, identifier.as_str());
            let mut key = [0u8; 32];
            let mut i: usize = 0;
            while i < 32
                invariant
                    i <= 32,
                    forall|j: int| 0 <= j < i ==> key@[j] == le_byte(h, j % 8),
                decreases 32 - i,
            {
                let shift = (8 * (i % 8)) as u64;
                key[i] = ((h >> shift) & 0xff) as u8;
                i = i + 1;
            }
            assert(key@ =~= repeated_hash_key(h));
            key
        },
        Nip19Ref::Secret(_) => {
            let key = [0u8; 32];
            assert(key@ =~= Seq::new(32, |i: int| 0u8));
            key
        },
    }
}


/// The decisions of a debounced refresh, for every state and time: a
/// resource never refreshed starts one; a running refresh is left alone
/// until it has run `STUCK_REFRESH_MS`, then aborted and restarted; a
/// completed one is left alone for `interval` after it completed, then
/// refreshed again. Whenever a refresh starts, the state becomes running
/// since `now`; when it is left alone, the state is unchanged.
pub proof fn lemma_debounce_decisions(state: Option<RefreshState>, now: u64, interval: u64, res: (RefreshAction, Option<RefreshState>))
    requires
        res.0 == action_spec(state, now, interval),
        res.1 == (if res.0 == RefreshAction::Skip {
            state
        } else {
            Some(RefreshState::InProgress { started: now })
        }),
    ensures
        state is None ==> res == (RefreshAction::Spawn, Some(RefreshState::InProgress { started: now })),
        match state {
            Some(RefreshState::InProgress { started }) => if elapsed(now, started) < STUCK_REFRESH_MS {
                res == (RefreshAction::Skip, state)
            } else {
                res == (RefreshAction::AbortAndSpawn, Some(RefreshState::InProgress { started: now }))
            },
            Some(RefreshState::Completed(t)) => if elapsed(now, t) < interval {
                res == (RefreshAction::Skip, state)
            } else {
                res == (RefreshAction::Spawn, Some(RefreshState::InProgress { started: now }))
            },
            None => true,
        },
{
}

/// The event an identifier names by id (`note`, `nevent`), if any.
pub open spec fn named_event(n: Nip19View) -> Option<[u8; 32]> {
    match n {
        Nip19View::Event { id, .. } => Some(id),
        Nip19View::EventId(id) => Some(id),
        _ => None,
    }
}

/// The public key an identifier names (`npub`, `nprofile`), if any.
pub open spec fn named_key(n: Nip19View) -> Option<[u8; 32]> {
    match n {
        Nip19View::Pubkey(pk) => Some(pk),
        Nip19View::Profile { pubkey, .. } => Some(pubkey),
        _ => None,
    }
}

/// A note or event is tracked under its event id and a profile under its
/// public key, whatever else the identifier carries: two such identifiers
/// share a key exactly when they name the same event (or the same key), so
/// one resource's refresh never holds back another's.
pub proof fn lemma_debounce_keys_follow_ids(n1: Nip19View, n2: Nip19View)
    ensures
        named_event(n1) matches Some(id) ==> debounce_key_spec(n1) == id@,
        named_key(n1) matches Some(pk) ==> debounce_key_spec(n1) == pk@,
        named_event(n1) is Some && named_event(n2) is Some ==> (debounce_key_spec(n1)
            == debounce_key_spec(n2) <==> named_event(n1) == named_event(n2)),
        named_key(n1) is Some && named_key(n2) is Some ==> (debounce_key_spec(n1)
            == debounce_key_spec(n2) <==> named_key(n1) == named_key(n2)),
{
    if named_event(n1) is Some && named_event(n2) is Some {
        let a = named_event(n1)->0;
        let b = named_event(n2)->0;
        if a@ == b@ {
            assert(a == b);
        }
    }
    if named_key(n1) is Some && named_key(n2) is Some {
        let a = named_key(n1)->0;
        let b = named_key(n2)->0;
        if a@ == b@ {
            assert(a == b);
        }
    }
}

/// The next step in making an author's recent notes available.
#[derive(Clone, Copy, Debug, PartialEq, Eq)]
pub enum FeedStep {
    /// There is no author to fetch for
    Nothing,
    /// Notes are cached: refresh them in the background, debounced
    RefreshInBackground([u8; 32]),
    /// Another request is fetching them: wait for it
    WaitForFetch,
    /// Fetch them now, marking the fetch as in flight
    FetchNow([u8; 32]),
}

pub open spec fn feed_step_spec(pubkey: Option<[u8; 32]>, has_cached_notes: bool, fetch_in_flight: bool) -> FeedStep {
    match pubkey {
        None => FeedStep::Nothing,
        Some(pk) => if has_cached_notes {
            FeedStep::RefreshInBackground(pk)
        } else if fetch_in_flight {
            FeedStep::WaitForFetch
        } else {
            FeedStep::FetchNow(pk)
        },
    }
}

/// Decides how to make the recent notes of the profile's author available:
/// `pubkey` is that author when known, `has_cached_notes` whether the store
/// has any of their notes, `fetch_in_flight` whether another request is
/// already fetching them.
pub fn profile_feed_step(pubkey: Option<[u8; 32]>, has_cached_notes: bool, fetch_in_flight: bool) -> (res: FeedStep)
    ensures
        res == feed_step_spec(pubkey, has_cached_notes, fetch_in_flight),
{
    match pubkey {
        None => FeedStep::Nothing,
        Some(pk) => if has_cached_notes {
            FeedStep::RefreshInBackground(pk)
        } else if fetch_in_flight {
            FeedStep::WaitForFetch
        } else {
            FeedStep::FetchNow(pk)
        },
    }
}

} // verus!
