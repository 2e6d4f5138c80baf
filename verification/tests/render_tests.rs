use notecrumbs::debounce::{
    needs_prune, profile_feed_step, should_retain, try_spawn_debounced, FeedStep, RefreshAction,
    RefreshState, REFRESH_MAP_PRUNE_THRESHOLD, STUCK_REFRESH_MS,
};
use notecrumbs::error::Error;
use notecrumbs::nip19::Nip19Ref;
use notecrumbs::relays::{collect_relay_hints, merge_relay_entry, KnownRelays, RelayEntry};
use notecrumbs::render::{
    build_address_filter, completion_requests, coordinate_tag, get_render_data, profile_feed_requests, relay_targets,
    renderdata_to_filter, Arrived, Completion, FeedRequest, FetchRequest, FoundNote,
    NoteRenderData, ProfileRenderData, RenderData,
};
use notecrumbs::route::{reply_for, route, timeout_ms, Format, Reply, Route};

#[test]
fn build_address_filter_includes_only_d_tags() {
    let author = [1u8; 32];
    let identifier = "article-slug";
    let kind = 30023u64;
    let filter = build_address_filter(&author, kind, identifier);
    assert_eq!(filter.author, author);
    assert_eq!(filter.kind, kind);
    assert_eq!(filter.d_tag, Some(identifier.to_owned()));
}

#[test]
fn address_filter_without_identifier_has_no_d_tag() {
    let filter = build_address_filter(&[1u8; 32], 30023, "");
    assert_eq!(filter.d_tag, None);
}

#[test]
fn coordinate_tag_is_kind_author_identifier() {
    let tag = coordinate_tag(&[0xabu8; 32], 30023, "slug");
    assert_eq!(tag, format!("30023:{}:slug", "ab".repeat(32)));
}

#[test]
fn secret_keys_are_refused() {
    assert!(matches!(get_render_data(&Nip19Ref::Secret([1u8; 32]), &None, None), Err(Error::CantRender)));
}

#[test]
fn missing_note_asks_for_note_and_profile() {
    let rd = get_render_data(&Nip19Ref::EventId([3u8; 32]), &None, None).unwrap();
    assert!(!rd.is_complete());
    assert!(rd.needs_note());
    let reqs = renderdata_to_filter(&rd);
    assert!(matches!(reqs[0], FetchRequest::NoteById(id) if id == [3u8; 32]));
}

#[test]
fn found_note_and_profile_is_complete() {
    let found = Some(FoundNote { key: Some(11), pubkey: [4u8; 32] });
    let rd = get_render_data(&Nip19Ref::EventId([3u8; 32]), &found, Some(12)).unwrap();
    assert!(rd.is_complete());
    assert!(renderdata_to_filter(&rd).is_empty());
    match rd {
        RenderData::Note(n) => {
            assert!(matches!(n.note_rd, NoteRenderData::Note(11)));
            assert_eq!(n.profile_rd, Some(ProfileRenderData::Profile(12)));
        }
        _ => panic!("expected a note"),
    }
}

#[test]
fn profile_page_needs_only_the_profile() {
    let rd = get_render_data(&Nip19Ref::Pubkey([5u8; 32]), &None, None).unwrap();
    assert!(rd.needs_profile());
    assert!(!rd.needs_note());
    let reqs = renderdata_to_filter(&rd);
    assert_eq!(reqs.len(), 1);
    assert!(matches!(reqs[0], FetchRequest::ProfileOf(pk) if pk == [5u8; 32]));
}

#[test]
fn arriving_notes_complete_the_render_data() {
    let mut rd = get_render_data(&Nip19Ref::EventId([3u8; 32]), &None, None).unwrap();
    let mut c = Completion::new();
    assert!(c.should_wait(&rd));
    let stop = c.on_notes(&mut rd, &vec![Arrived::Note(9), Arrived::Profile(Some(8))]);
    assert!(stop);
    assert!(rd.is_complete());
    assert!(!c.should_wait(&rd));
}

#[test]
fn completion_gives_up_after_five_timeouts() {
    let rd = get_render_data(&Nip19Ref::EventId([3u8; 32]), &None, None).unwrap();
    let mut c = Completion::new();
    for _ in 0..4 {
        c.on_timeout();
        assert!(c.should_wait(&rd));
    }
    c.on_timeout();
    assert!(!c.should_wait(&rd));
}

#[test]
fn debounce_spawns_on_first_call() {
    let (action, state) = try_spawn_debounced(None, 1_000, 300_000);
    assert_eq!(action, RefreshAction::Spawn);
    assert_eq!(state, Some(RefreshState::InProgress { started: 1_000 }));
}

#[test]
fn debounce_skips_while_in_progress() {
    let state = Some(RefreshState::InProgress { started: 1_000 });
    let (action, next) = try_spawn_debounced(state, 2_000, 300_000);
    assert_eq!(action, RefreshAction::Skip);
    assert_eq!(next, state);
}

#[test]
fn debounce_skips_recently_completed() {
    let state = Some(RefreshState::Completed(1_000));
    let (action, _) = try_spawn_debounced(state, 2_000, 300_000);
    assert_eq!(action, RefreshAction::Skip);
}

#[test]
fn debounce_refreshes_after_interval_expires() {
    let state = Some(RefreshState::Completed(0));
    let (action, next) = try_spawn_debounced(state, 600_000, 300_000);
    assert_eq!(action, RefreshAction::Spawn);
    assert_eq!(next, Some(RefreshState::InProgress { started: 600_000 }));
}

#[test]
fn debounce_aborts_stuck_task_and_retries() {
    let state = Some(RefreshState::InProgress { started: 0 });
    let (action, next) = try_spawn_debounced(state, STUCK_REFRESH_MS + 60_000, 300_000);
    assert_eq!(action, RefreshAction::AbortAndSpawn);
    assert_eq!(next, Some(RefreshState::InProgress { started: STUCK_REFRESH_MS + 60_000 }));
}

#[test]
fn debounce_does_not_abort_recent_in_progress() {
    let state = Some(RefreshState::InProgress { started: 0 });
    let (action, _) = try_spawn_debounced(state, STUCK_REFRESH_MS - 1, 300_000);
    assert_eq!(action, RefreshAction::Skip);
}

#[test]
fn debounce_prunes_stale_entries_over_threshold() {
    // the server's map: pruned by `needs_prune` and `should_retain`, then
    // the key's own state decides
    let now = 1_000_000u64;
    let old_time = now - 600_000;
    let interval = 300_000u64;
    let mut state: std::collections::HashMap<[u8; 32], RefreshState> = std::collections::HashMap::new();
    for i in 0..(REFRESH_MAP_PRUNE_THRESHOLD + 50) {
        let mut key = [0u8; 32];
        key[0] = (i & 0xFF) as u8;
        key[1] = ((i >> 8) & 0xFF) as u8;
        state.insert(key, RefreshState::Completed(old_time));
    }
    assert!(state.len() > REFRESH_MAP_PRUNE_THRESHOLD);
    let key = [0xFFu8; 32];
    if needs_prune(state.len()) {
        state.retain(|_, s| should_retain(*s, now, interval));
    }
    let (action, next) = try_spawn_debounced(state.get(&key).copied(), now, interval);
    assert_eq!(action, RefreshAction::Spawn);
    state.insert(key, next.unwrap());
    assert!(state.len() < REFRESH_MAP_PRUNE_THRESHOLD, "state map has {} entries", state.len());

    assert!(!needs_prune(1000));
    assert!(needs_prune(1001));
    assert!(should_retain(RefreshState::InProgress { started: 0 }, 10_000_000, 300_000));
    assert!(!should_retain(RefreshState::Completed(0), 600_000, 300_000));
    assert!(should_retain(RefreshState::Completed(500_000), 600_000, 300_000));
}

#[test]
fn debounce_independent_keys_both_spawn() {
    // each key has its own state: a fresh key spawns whatever another key's state is
    let (a, _) = try_spawn_debounced(None, 5, 300_000);
    let (b, _) = try_spawn_debounced(None, 5, 300_000);
    assert_eq!(a, RefreshAction::Spawn);
    assert_eq!(b, RefreshAction::Spawn);
}

#[test]
fn profile_feed_steps() {
    assert_eq!(profile_feed_step(None, true, true), FeedStep::Nothing);
    assert_eq!(profile_feed_step(Some([1; 32]), true, false), FeedStep::RefreshInBackground([1; 32]));
    assert_eq!(profile_feed_step(Some([1; 32]), false, true), FeedStep::WaitForFetch);
    assert_eq!(profile_feed_step(Some([1; 32]), false, false), FeedStep::FetchNow([1; 32]));
    let reqs = profile_feed_requests([2; 32]);
    assert_eq!(reqs, vec![
        FeedRequest::RecentNotes { author: [2; 32], limit: 12 },
        FeedRequest::RelayList { author: [2; 32] },
    ]);
}

#[test]
fn relay_targets_fall_back_to_defaults() {
    let defaults = vec!["wss://relay.damus.io".to_string()];
    assert_eq!(relay_targets(&Nip19Ref::EventId([1; 32]), &defaults), defaults);
    let with = Nip19Ref::Event([1; 32], None, None, vec!["wss://x.y".to_string()]);
    assert_eq!(relay_targets(&with, &defaults), vec!["wss://x.y".to_string()]);
}

#[test]
fn relay_entries_merge_markers() {
    let mut entries: Vec<RelayEntry> = Vec::new();
    merge_relay_entry(&mut entries, " wss://a ", Some("READ"));
    merge_relay_entry(&mut entries, "wss://a", Some("write"));
    merge_relay_entry(&mut entries, "wss://b", None);
    merge_relay_entry(&mut entries, "   ", None);
    assert_eq!(entries.len(), 2);
    assert_eq!(entries[0].url, "wss://a");
    assert!(entries[0].read && entries[0].write);
    assert!(entries[1].read && entries[1].write);
}

#[test]
fn known_relays_report_only_new_ones() {
    let mut known = KnownRelays::new();
    let first = known.ensure_relays(&vec!["wss://a".to_string(), "wss://b".to_string(), "wss://a".to_string()]);
    assert_eq!(first, vec!["wss://a".to_string(), "wss://b".to_string()]);
    let second = known.ensure_relays(&vec!["wss://b".to_string(), "wss://a".to_string()]);
    assert!(second.is_empty());
}

#[test]
fn routes_fixed_paths() {
    assert!(matches!(route("/"), Route::Home));
    assert!(matches!(route("/metrics"), Route::Metrics));
    assert!(matches!(route("/damus.css"), Route::Css));
    assert!(matches!(route("/robots.txt"), Route::Robots));
    assert!(matches!(route("/sitemap.xml"), Route::Sitemap));
    assert!(matches!(route("/fonts/PoetsenOne-Regular.ttf"), Route::Font));
    assert!(matches!(route("/assets/default_pfp.jpg"), Route::DefaultPfp));
    assert!(matches!(route("/assets/logo_icon.png"), Route::Logo));
    assert!(matches!(route("/nonsense"), Route::InvalidUrl));
}

#[test]
fn routes_identifiers_with_suffixes() {
    let note = notecrumbs::nip19::to_bech32(&Nip19Ref::EventId([7u8; 32])).unwrap();
    assert!(matches!(route(&format!("/{}", note)), Route::Render { format: Format::Html, .. }));
    assert!(matches!(route(&format!("/{}.png", note)), Route::Render { format: Format::Png, .. }));
    assert!(matches!(route(&format!("/{}.json", note)), Route::Render { format: Format::Json, .. }));
    match route(&format!("/{}.png", note)) {
        Route::Render { nip19: Nip19Ref::EventId(id), .. } => assert_eq!(id, [7u8; 32]),
        _ => panic!("expected a note"),
    }
}

#[test]
fn replies_by_format() {
    let note = get_render_data(&Nip19Ref::EventId([3u8; 32]), &None, None).unwrap();
    let profile = get_render_data(&Nip19Ref::Pubkey([3u8; 32]), &None, None).unwrap();
    assert_eq!(reply_for(Format::Png, &profile), Reply::Png);
    assert_eq!(reply_for(Format::Json, &note), Reply::NoteJson);
    assert_eq!(reply_for(Format::Json, &profile), Reply::ProfileJsonMissing);
    assert_eq!(reply_for(Format::Html, &note), Reply::NoteHtml);
    assert_eq!(reply_for(Format::Html, &profile), Reply::ProfileHtml);
}

#[test]
fn timeout_setting() {
    assert_eq!(timeout_ms(None), 2000);
    assert_eq!(timeout_ms(Some("250")), 250);
    assert_eq!(timeout_ms(Some("soon")), 2000);
}

#[test]
fn relay_hints_come_from_relay_tags_and_contact_entries() {
    let tag = |items: &[&str]| items.iter().map(|s| s.to_string()).collect::<Vec<String>>();
    let expected = nostr::RelayUrl::parse("wss://relay.one").unwrap().to_string();
    let note_tags = vec![tag(&["r", "wss://relay.one"]), tag(&["p", "abc", "wss://relay.two"]), tag(&["r", "not a url"])];
    assert_eq!(collect_relay_hints(1, &note_tags), vec![expected.clone()]);
    let contact_tags = vec![tag(&["p", "abc", "wss://relay.one"]), tag(&["p", "def", ""])];
    assert_eq!(collect_relay_hints(3, &contact_tags), vec![expected]);
}

#[test]
fn relay_entries_update_the_first_match_and_ignore_blank_urls() {
    let entry = |url: &str, read: bool, write: bool| RelayEntry { url: url.to_string(), read, write };
    let mut entries = vec![entry("wss://a", false, true), entry("wss://a", false, true)];
    merge_relay_entry(&mut entries, "wss://a", Some("read"));
    assert_eq!(entries.len(), 2);
    assert!(entries[0].read && entries[0].write);
    assert!(!entries[1].read && entries[1].write);
    merge_relay_entry(&mut entries, "  ", Some("read"));
    assert_eq!(entries.len(), 2);
    merge_relay_entry(&mut entries, " wss://c ", Some(" Write "));
    assert_eq!(entries.len(), 3);
    assert_eq!(entries[2].url, "wss://c");
    assert!(!entries[2].read && entries[2].write);
}

#[test]
fn complete_render_data_has_nothing_to_fetch() {
    let found = Some(FoundNote { key: Some(11), pubkey: [4u8; 32] });
    let rd = get_render_data(&Nip19Ref::EventId([3u8; 32]), &found, Some(12)).unwrap();
    assert!(matches!(completion_requests(&rd), Err(Error::NothingToFetch)));
    assert_eq!(Error::NothingToFetch.message(), "Nothing to fetch");
}

#[test]
fn incomplete_render_data_has_requests() {
    let rd = get_render_data(&Nip19Ref::EventId([3u8; 32]), &None, None).unwrap();
    let reqs = completion_requests(&rd).unwrap();
    assert!(matches!(reqs[0], FetchRequest::NoteById(id) if id == [3u8; 32]));
}
