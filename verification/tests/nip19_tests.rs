use nostr::Keys;
use notecrumbs::debounce::nip19_debounce_key;
use notecrumbs::nip19::{bech32_with_relays, nip19_relays, to_bech32, Nip19Ref};
use notecrumbs::route::{route, Route};

fn relay(s: &str) -> String {
    nostr::RelayUrl::parse(s).unwrap().to_string()
}

/// Decodes an identifier the way the server does: as the path of a page.
fn decode_nip19(text: &str) -> Option<Nip19Ref> {
    match route(&format!("/{text}")) {
        Route::Render { nip19, .. } => Some(nip19),
        _ => None,
    }
}

fn event(id: u8, relays: Vec<String>) -> Nip19Ref {
    Nip19Ref::Event([id; 32], None, None, relays)
}

#[test]
fn bech32_with_relays_adds_relay_to_nevent() {
    let nip19 = event(1, vec![]);
    let source_relays = vec![relay("wss://relay.damus.io")];
    let result = bech32_with_relays(&nip19, &source_relays).expect("should encode");

    let original = to_bech32(&nip19).unwrap();
    assert!(result.len() > original.len(), "bech32 with relay should be longer");

    match decode_nip19(&result).unwrap() {
        Nip19Ref::Event(_, _, _, relays) => {
            assert!(!relays.is_empty(), "should have relay hints");
            assert!(relays[0].contains("relay.damus.io"));
        }
        _ => panic!("expected Nip19::Event"),
    }
}

#[test]
fn bech32_with_relays_adds_relay_to_naddr() {
    let keys = Keys::generate();
    let nip19 = Nip19Ref::Coordinate(30023, keys.public_key().to_bytes(), "test-article".to_string(), vec![]);
    let source_relays = vec![relay("wss://nostr.wine")];
    let result = bech32_with_relays(&nip19, &source_relays).expect("should encode");

    let original = to_bech32(&nip19).unwrap();
    assert!(result.len() > original.len(), "bech32 with relay should be longer");

    match decode_nip19(&result).unwrap() {
        Nip19Ref::Coordinate(_, _, _, relays) => {
            assert!(!relays.is_empty(), "should have relay hints");
            assert!(relays[0].contains("nostr.wine"));
        }
        _ => panic!("expected Nip19::Coordinate"),
    }
}

#[test]
fn bech32_with_relays_empty_returns_original() {
    let nip19 = event(2, vec![relay("wss://original.relay")]);
    let result = bech32_with_relays(&nip19, &vec![]).expect("should encode");
    let original = to_bech32(&nip19).unwrap();
    assert_eq!(result, original, "empty source_relays should return original bech32");
}

#[test]
fn bech32_with_relays_replaces_existing_relays() {
    let nip19 = event(3, vec![relay("wss://original.relay")]);
    let result = bech32_with_relays(&nip19, &vec![relay("wss://new.relay")]).expect("should encode");
    match decode_nip19(&result).unwrap() {
        Nip19Ref::Event(_, _, _, relays) => {
            assert_eq!(relays.len(), 1, "should have exactly one relay");
            assert!(relays[0].contains("new.relay"));
        }
        _ => panic!("expected Nip19::Event"),
    }
}

#[test]
fn bech32_with_relays_preserves_author_and_kind() {
    let keys = Keys::generate();
    let pk = keys.public_key().to_bytes();
    let nip19 = Nip19Ref::Event([5u8; 32], Some(pk), Some(1), vec![]);
    let result = bech32_with_relays(&nip19, &vec![relay("wss://test.relay")]).expect("should encode");
    match decode_nip19(&result).unwrap() {
        Nip19Ref::Event(_, author, kind, relays) => {
            assert!(author.is_some(), "author should be preserved");
            assert_eq!(author.unwrap(), pk);
            assert!(kind.is_some(), "kind should be preserved");
            assert_eq!(kind.unwrap(), 1);
            assert!(!relays.is_empty(), "should have relay");
        }
        _ => panic!("expected Nip19::Event"),
    }
}

#[test]
fn nip19_relays_extracts_from_event() {
    let nip19 = event(4, vec![relay("wss://test.relay")]);
    let relays = nip19_relays(&nip19);
    assert_eq!(relays.len(), 1);
    assert!(relays[0].contains("test.relay"));
}

#[test]
fn nip19_relays_extracts_from_coordinate() {
    let keys = Keys::generate();
    let nip19 = Nip19Ref::Coordinate(30023, keys.public_key().to_bytes(), "article".to_string(), vec![relay("wss://coord.relay")]);
    let relays = nip19_relays(&nip19);
    assert_eq!(relays.len(), 1);
    assert!(relays[0].contains("coord.relay"));
}

#[test]
fn nip19_relays_returns_empty_for_pubkey() {
    let keys = Keys::generate();
    let nip19 = Nip19Ref::Pubkey(keys.public_key().to_bytes());
    let relays = nip19_relays(&nip19);
    assert!(relays.is_empty(), "pubkey nip19 should have no relays");
}

#[test]
fn debounce_key_event_uses_event_id() {
    let nip19 = Nip19Ref::EventId([0u8; 32]);
    assert_eq!(nip19_debounce_key(&nip19), [0u8; 32]);
}

#[test]
fn debounce_key_pubkey_uses_pubkey_bytes() {
    let pk = Keys::generate().public_key().to_bytes();
    assert_eq!(nip19_debounce_key(&Nip19Ref::Pubkey(pk)), pk);
}

#[test]
fn debounce_key_profile_uses_pubkey_bytes() {
    let pk = Keys::generate().public_key().to_bytes();
    let nip19 = Nip19Ref::Profile(pk, vec![]);
    assert_eq!(nip19_debounce_key(&nip19), pk);
}

#[test]
fn debounce_key_coordinate_is_deterministic() {
    let pk = Keys::generate().public_key().to_bytes();
    let nip19 = Nip19Ref::Coordinate(30023, pk, "test-article".to_string(), vec![]);
    let key1 = nip19_debounce_key(&nip19);
    let key2 = nip19_debounce_key(&nip19);
    assert_eq!(key1, key2);
}

#[test]
fn debounce_key_different_coordinates_differ() {
    let pk = Keys::generate().public_key().to_bytes();
    let a = Nip19Ref::Coordinate(30023, pk, "article-a".to_string(), vec![]);
    let b = Nip19Ref::Coordinate(30023, pk, "article-b".to_string(), vec![]);
    assert_ne!(nip19_debounce_key(&a), nip19_debounce_key(&b));
}

#[test]
fn debounce_key_of_address_repeats_eight_bytes() {
    let nip19 = Nip19Ref::Coordinate(30023, [9u8; 32], "x".to_string(), vec![]);
    let key = nip19_debounce_key(&nip19);
    for i in 8..32 {
        assert_eq!(key[i], key[i % 8]);
    }
}

#[test]
fn secret_keys_round_trip_and_share_the_zero_key() {
    let keys = Keys::generate();
    let nsec = nostr::nips::nip19::ToBech32::to_bech32(keys.secret_key()).unwrap();
    let decoded = decode_nip19(&nsec).unwrap();
    assert!(matches!(decoded, Nip19Ref::Secret(k) if k == keys.secret_key().to_secret_bytes()));
    assert_eq!(to_bech32(&decoded), Some(nsec));
    assert_eq!(nip19_debounce_key(&decoded), [0u8; 32]);
    assert!(to_bech32(&Nip19Ref::Secret([0u8; 32])).is_none());
}

#[test]
fn decoding_round_trips_a_note_id() {
    let n = Nip19Ref::EventId([7u8; 32]);
    let text = to_bech32(&n).unwrap();
    assert!(text.starts_with("note1"));
    assert!(matches!(decode_nip19(&text), Some(Nip19Ref::EventId(id)) if id == [7u8; 32]));
    assert!(decode_nip19("not-bech32").is_none());
}

#[test]
fn nprofile_round_trips_key_and_relays() {
    let pk = Keys::generate().public_key().to_bytes();
    let relays = vec![relay("wss://relay.damus.io")];
    let text = to_bech32(&Nip19Ref::Profile(pk, relays.clone())).expect("should encode");
    assert!(text.starts_with("nprofile1"));
    match decode_nip19(&text) {
        Some(Nip19Ref::Profile(key, decoded)) => {
            assert_eq!(key, pk);
            assert_eq!(decoded, relays);
        }
        other => panic!("expected an nprofile, got {:?}", other),
    }
}

#[test]
fn npub_encodes_the_key() {
    let keys = Keys::generate();
    let text = to_bech32(&Nip19Ref::Pubkey(keys.public_key().to_bytes())).unwrap();
    assert_eq!(text, nostr::ToBech32::to_bech32(&keys.public_key()).unwrap());
}

#[test]
fn bech32_with_relays_replaces_nprofile_relays() {
    let pk = Keys::generate().public_key().to_bytes();
    let nip19 = Nip19Ref::Profile(pk, vec![relay("wss://old.relay")]);
    let source = vec![relay("wss://new.relay")];
    let text = bech32_with_relays(&nip19, &source).expect("should encode");
    match decode_nip19(&text) {
        Some(Nip19Ref::Profile(key, relays)) => {
            assert_eq!(key, pk);
            assert_eq!(relays, source);
        }
        other => panic!("expected an nprofile, got {:?}", other),
    }
    assert_eq!(bech32_with_relays(&nip19, &vec![]), to_bech32(&nip19));
}
