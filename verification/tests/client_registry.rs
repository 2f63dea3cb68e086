use libroxo::client_registry::{now_secs, UNSUBSCRIBED_TTL_SECS};
use libroxo::{ClientHandshake, ClientRegistry};

fn handshake_of(place_id: u64) -> ClientHandshake {
    ClientHandshake {
        place_id: Some(place_id),
        client_name: Some("roxo-plugin".to_owned()),
        ..Default::default()
    }
}

#[test]
fn handshake_records_a_client() {
    let mut registry = ClientRegistry::new();
    let id = registry.handshake(handshake_of(123), "127.0.0.1:1".to_owned());

    let clients = registry.clients();
    assert_eq!(clients.len(), 1);
    assert_eq!(clients[0].id, id);
    assert_eq!(clients[0].place_id, Some(123));
    assert_eq!(clients[0].client_name, "roxo-plugin");
}

#[test]
fn only_subscribed_clients_count_as_connected() {
    let mut registry = ClientRegistry::new();
    let id = registry.handshake(handshake_of(123), "127.0.0.1:1".to_owned());

    // A handshake alone is not a live sync.
    assert_eq!(registry.subscribed_count(), 0);

    registry.set_subscribed(id, true);
    assert_eq!(registry.subscribed_count(), 1);

    registry.set_subscribed(id, false);
    assert_eq!(registry.subscribed_count(), 0);
}

#[test]
fn stale_handshakes_are_pruned_but_subscribers_are_kept() {
    let mut registry = ClientRegistry::new();

    // Both clients were last seen past the TTL. A long-lived subscriber
    // legitimately sits quiet for hours, so only the unsubscribed probe goes.
    let aged = now_secs() - (UNSUBSCRIBED_TTL_SECS + 1);
    let probe = registry.handshake_at(handshake_of(1), "127.0.0.1:1".to_owned(), aged);
    let session = registry.handshake_at(handshake_of(2), "127.0.0.1:2".to_owned(), aged);

    registry.set_subscribed_at(session, true, aged);

    registry.prune_stale();

    let ids: Vec<_> = registry.clients().iter().map(|client| client.id).collect();
    assert_eq!(ids, vec![session]);
    assert!(!ids.contains(&probe));
}

#[test]
fn removing_a_client_drops_it_from_the_listing() {
    let mut registry = ClientRegistry::new();
    let first = registry.handshake(handshake_of(1), "127.0.0.1:1".to_owned());
    let second = registry.handshake(handshake_of(2), "127.0.0.1:2".to_owned());

    registry.remove(first);

    let clients = registry.clients();
    assert_eq!(clients.len(), 1);
    assert_eq!(clients[0].id, second);
}

#[test]
fn handshakes_get_increasing_ids_and_list_in_order() {
    let mut registry = ClientRegistry::new();
    let a = registry.handshake_at(handshake_of(1), "a".to_owned(), 1000);
    let b = registry.handshake_at(handshake_of(2), "b".to_owned(), 1000);
    let c = registry.handshake_at(handshake_of(3), "c".to_owned(), 1000);
    assert_eq!((a, b, c), (0, 1, 2));

    let listed: Vec<_> = registry.clients_at(1010).iter().map(|client| client.id).collect();
    assert_eq!(listed, vec![0, 1, 2]);
}

#[test]
fn a_nameless_client_is_unknown() {
    let mut registry = ClientRegistry::new();
    let id = registry.handshake_at(ClientHandshake::default(), "127.0.0.1:9".to_owned(), 500);
    let clients = registry.clients_at(500);
    assert_eq!(clients[0].id, id);
    assert_eq!(clients[0].client_name, "unknown");
    assert_eq!(clients[0].remote_addr, "127.0.0.1:9");
    assert_eq!(clients[0].connected_at, 500);
    assert_eq!(clients[0].last_seen, 500);
    assert!(!clients[0].subscribed);
}

#[test]
fn the_ttl_boundary_is_exclusive() {
    let mut registry = ClientRegistry::new();
    let id = registry.handshake_at(handshake_of(1), "x".to_owned(), 100);
    // Idle for 59 seconds: kept.
    assert_eq!(registry.clients_at(159).len(), 1);
    // Touching refreshes it.
    registry.touch_at(id, 150);
    assert_eq!(registry.clients_at(209).len(), 1);
    // Idle for exactly the TTL: forgotten.
    registry.prune_stale_at(210);
    assert_eq!(registry.clients_at(210).len(), 0);
}

#[test]
fn a_clock_that_went_backwards_prunes_nothing() {
    let mut registry = ClientRegistry::new();
    registry.handshake_at(handshake_of(1), "x".to_owned(), 1000);
    registry.prune_stale_at(10);
    assert_eq!(registry.clients_at(10).len(), 1);
}

#[test]
fn clients_that_never_handshook_still_show_up() {
    let mut registry = ClientRegistry::new();
    let id = registry.handshake_at(handshake_of(1), "x".to_owned(), 1000);
    registry.set_subscribed_at(41, true, 1500);
    assert_eq!(registry.subscribed_count(), 1);

    registry.set_subscribed_at(id, true, 2000);
    assert_eq!(registry.subscribed_count(), 2);

    let clients = registry.clients_at(5000);
    assert_eq!(clients.len(), 2);
    assert_eq!(clients[0].id, id);
    assert!(clients[0].subscribed);
    assert_eq!(clients[0].last_seen, 2000);
    assert_eq!(clients[0].client_name, "roxo-plugin");
    assert_eq!(clients[1].id, 41);
    assert_eq!(clients[1].client_name, "unknown");
    assert_eq!(clients[1].place_id, None);
    assert_eq!(clients[1].connected_at, 1500);

    registry.set_subscribed_at(41, false, 1500);
    assert_eq!(registry.subscribed_count(), 1);
}

#[test]
fn touching_an_unknown_client_changes_nothing() {
    let mut registry = ClientRegistry::new();
    registry.touch_at(9, 100);
    assert!(registry.clients_at(100).is_empty());
}

#[test]
fn a_handshake_never_reuses_an_id_in_use() {
    let mut registry = ClientRegistry::new();
    registry.set_subscribed_at(0, true, 100);
    let id = registry.handshake_at(handshake_of(1), "x".to_owned(), 100);
    assert_ne!(id, 0);
    assert_eq!(id, 1);
    assert_eq!(registry.subscribed_count(), 1);
    assert_eq!(registry.clients_at(100).len(), 2);

    registry.set_subscribed_at(7, true, 100);
    assert_eq!(registry.handshake_at(handshake_of(2), "y".to_owned(), 100), 8);
}

#[test]
fn the_last_counter_value_is_handed_out_and_then_gaps_are_reused() {
    let mut registry = ClientRegistry::new();
    registry.set_subscribed_at(u64::MAX - 1, true, 100);
    assert_eq!(registry.handshake_at(handshake_of(1), "a".to_owned(), 100), u64::MAX);
    // The counter is exhausted: the smallest id not in use comes next.
    assert_eq!(registry.handshake_at(handshake_of(2), "b".to_owned(), 100), 0);
    assert_eq!(registry.handshake_at(handshake_of(3), "c".to_owned(), 100), 1);
    registry.remove(0);
    assert_eq!(registry.handshake_at(handshake_of(4), "d".to_owned(), 100), 0);
}
