use tunneler::close_user_connection;
use tunneler::ClientManager;
use tunneler::Connections;

/// After a set of a stream-id followed by its removal, a get finds nothing.
#[test]
fn stream_table_set_remove_get() {
    let mut table: Connections<u8> = Connections::new();
    table.set(7, 42);
    assert_eq!(Some(&42), table.get(7));
    assert_eq!(Some((7, 42)), table.remove(7));
    assert_eq!(None, table.get(7));
}

/// Operations on one stream-id never disturb another.
#[test]
fn stream_table_distinct_ids_do_not_interfere() {
    let mut table: Connections<&str> = Connections::new();
    table.set(1, "one");
    table.set(2, "two");
    table.set(1, "one again");
    assert_eq!(Some(&"two"), table.get(2));
    table.remove(1);
    assert_eq!(Some(&"two"), table.get(2));
    assert_eq!(None, table.get(1));
}

/// Closing a stream is idempotent: the second close finds nothing.
#[test]
fn stream_table_close_idempotent() {
    let mut table: Connections<u8> = Connections::new();
    table.set(5, 1);
    assert!(close_user_connection(5, &mut table));
    assert!(!close_user_connection(5, &mut table));
    assert_eq!(None, table.get(5));
}

/// Round-robin fairness: over 10 selections from 3 stable clients, each is
/// chosen 4 or 3 times (once the counter wraps the list, evenly).
#[test]
fn registry_round_robin_fairness() {
    let mut registry: ClientManager<&str> = ClientManager::new();
    registry.add(1, "a");
    registry.add(2, "b");
    registry.add(3, "c");

    let mut counts = [0usize; 3];
    let picked: Vec<&str> = (0..10).map(|_| *registry.get().unwrap()).collect();
    for p in picked {
        match p {
            "a" => counts[0] += 1,
            "b" => counts[1] += 1,
            "c" => counts[2] += 1,
            _ => unreachable!(),
        }
    }
    assert_eq!([4, 3, 3], counts);
}

/// Selection is the list order, round and round.
#[test]
fn registry_round_robin_order() {
    let mut registry: ClientManager<u32> = ClientManager::new();
    registry.add(10, 100);
    registry.add(20, 200);
    assert_eq!(Some(&100), registry.get());
    assert_eq!(Some(&200), registry.get());
    assert_eq!(Some(&100), registry.get());
}

/// An empty registry selects nothing.
#[test]
fn registry_empty_get() {
    let mut registry: ClientManager<u32> = ClientManager::new();
    assert_eq!(None, registry.get());
}

/// Deregistration removes exactly the named client and reports the new count.
#[test]
fn registry_add_remove_counts() {
    let mut registry: ClientManager<&str> = ClientManager::new();
    assert_eq!(1, registry.add(1, "a"));
    assert_eq!(2, registry.add(2, "b"));
    assert_eq!(1, registry.remove_con(1));
    assert_eq!(1, registry.remove_con(99));
    assert_eq!(Some(&"b"), registry.get());
}
