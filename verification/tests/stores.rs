use gossip_expire::expire::Expire;
use gossip_expire::server::Server;
use gossip_expire::store::ExpiringStore;
use gossip_expire::timing::Timing;

#[test]
fn purge_expired_is_inclusive_and_spares_permanent_entries() {
    let mut store: ExpiringStore<String> = ExpiringStore::new();
    store.insert("at_deadline".to_string(), "p1".to_string(), Some(5000));
    store.insert("later".to_string(), "p2".to_string(), Some(5001));
    store.insert("permanent".to_string(), "p3".to_string(), None);
    store.purge_expired(5000);
    assert_eq!(store.len(), 2);
    assert!(!store.contains_id(&"at_deadline".to_string()));
    assert!(store.contains_id(&"later".to_string()));
    assert!(store.contains_id(&"permanent".to_string()));
}

#[test]
fn purge_expired_twice_is_a_no_op() {
    // Purging a second time against the identical instant leaves the store
    // exactly as the first purge left it.
    let mut store: ExpiringStore<String> = ExpiringStore::new();
    store.insert("a".to_string(), "p".to_string(), Some(100));
    store.insert("b".to_string(), "p".to_string(), Some(200));
    store.insert("c".to_string(), "p".to_string(), None);
    store.purge_expired(150);
    assert_eq!(store.len(), 2);
    assert!(store.contains_id(&"b".to_string()));
    assert!(store.contains_id(&"c".to_string()));
    store.purge_expired(150);
    assert_eq!(store.len(), 2);
    assert!(store.contains_id(&"b".to_string()));
    assert!(store.contains_id(&"c".to_string()));
}

#[test]
fn purge_of_empty_store_is_fine() {
    let mut store: ExpiringStore<String> = ExpiringStore::new();
    store.purge_expired(1_000_000);
    assert_eq!(store.len(), 0);
}

#[test]
fn categories_age_in_isolation() {
    // A sweep purges every category against the same instant, and what one
    // store drops never touches another store's entries.
    let mut server = Server::new();
    server
        .election_store
        .insert("rumor".to_string(), "stale".to_string(), Some(1000));
    server
        .service_store
        .insert("rumor".to_string(), "fresh".to_string(), Some(9000));
    server
        .departure_store
        .insert("rumor".to_string(), "keeps".to_string(), None);
    let mut sweeper = Expire::new(server, Timing::new(1000, 1000));

    sweeper.run_cycle(5000);

    assert!(!sweeper.server.election_store.contains_id(&"rumor".to_string()));
    assert!(sweeper.server.service_store.contains_id(&"rumor".to_string()));
    assert!(sweeper.server.departure_store.contains_id(&"rumor".to_string()));
    assert_eq!(sweeper.server.update_store.len(), 0);
}
