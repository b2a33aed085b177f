use netsync::connection::ConnectionRegistry;
use netsync::identity::{ConnectionKey, Identity, PropertyId};
use netsync::index::Index;
use netsync::session::Session;
use netsync::subscription::SubscriptionRegistry;

fn keys(count: usize) -> Vec<ConnectionKey> {
    let mut connections = ConnectionRegistry::new();
    let mut keys = Vec::new();
    for _ in 0..count {
        keys.push(connections.register(Session::reliable_stream(8)));
    }
    keys
}

#[test]
fn subscribing_twice_is_one_subscription() {
    let k = keys(1);
    let p = PropertyId::new(3, 4);
    let mut registry = SubscriptionRegistry::new();
    assert!(!registry.is_subscribed(p, k[0]));
    assert!(registry.subscribe(p, k[0]));
    assert!(!registry.subscribe(p, k[0]));
    assert!(registry.is_subscribed(p, k[0]));
    assert_eq!(registry.subscribers_of(p), vec![k[0]]);
    assert_eq!(registry.subscriptions_of(k[0]), vec![p]);
}

#[test]
fn unsubscribing_what_is_not_there_changes_nothing() {
    let k = keys(2);
    let p = PropertyId::new(3, 4);
    let mut registry = SubscriptionRegistry::new();
    registry.subscribe(p, k[0]);
    assert!(!registry.unsubscribe(p, k[1]));
    assert!(!registry.unsubscribe(PropertyId::new(9, 9), k[0]));
    assert_eq!(registry.subscribers_of(p), vec![k[0]]);
    assert!(registry.unsubscribe(p, k[0]));
    assert!(!registry.unsubscribe(p, k[0]));
    assert_eq!(registry.subscribers_of(p), vec![]);
    assert_eq!(registry.subscriptions_of(k[0]), vec![]);
}

#[test]
fn both_directions_hold_the_same() {
    let k = keys(3);
    let p = PropertyId::new(1, 1);
    let q = PropertyId::new(1, 2);
    let r = PropertyId::new(2, 1);
    let mut registry = SubscriptionRegistry::new();
    registry.subscribe(p, k[0]);
    registry.subscribe(q, k[0]);
    registry.subscribe(p, k[1]);
    registry.subscribe(r, k[2]);
    registry.subscribe(p, k[2]);
    registry.unsubscribe(p, k[1]);
    for property in [p, q, r] {
        for key in &k {
            let by_property = registry.subscribers_of(property).contains(key);
            let by_connection = registry.subscriptions_of(*key).contains(&property);
            assert_eq!(by_property, by_connection);
            assert_eq!(by_property, registry.is_subscribed(property, *key));
        }
    }
    assert_eq!(registry.subscribers_of(p), vec![k[0], k[2]]);
    assert_eq!(registry.subscriptions_of(k[0]), vec![p, q]);
    assert_eq!(registry.subscriptions_of(k[2]), vec![r, p]);
}

#[test]
fn removing_a_connection_ends_all_it_held() {
    let k = keys(2);
    let p = PropertyId::new(1, 1);
    let q = PropertyId::new(1, 2);
    let mut registry = SubscriptionRegistry::new();
    registry.subscribe(p, k[0]);
    registry.subscribe(q, k[0]);
    registry.subscribe(q, k[1]);
    assert_eq!(registry.remove_connection(k[0]), vec![p, q]);
    assert_eq!(registry.subscribers_of(p), vec![]);
    assert_eq!(registry.subscribers_of(q), vec![k[1]]);
    assert_eq!(registry.subscriptions_of(k[0]), vec![]);
    assert_eq!(registry.subscriptions_of(k[1]), vec![q]);
    assert_eq!(registry.remove_connection(k[0]), vec![]);
}

#[test]
fn removing_a_property_ends_all_subscriptions_to_it() {
    let k = keys(2);
    let p = PropertyId::new(1, 1);
    let q = PropertyId::new(1, 2);
    let mut registry = SubscriptionRegistry::new();
    registry.subscribe(p, k[0]);
    registry.subscribe(p, k[1]);
    registry.subscribe(q, k[1]);
    assert_eq!(registry.remove_property(p), vec![k[0], k[1]]);
    assert_eq!(registry.subscribers_of(p), vec![]);
    assert_eq!(registry.subscriptions_of(k[0]), vec![]);
    assert_eq!(registry.subscriptions_of(k[1]), vec![q]);
    assert!(registry.is_subscribed(q, k[1]));
    assert_eq!(registry.remove_property(p), vec![]);
}

#[test]
fn index_files_each_identity_once() {
    let mut index: Index<PropertyId> = Index::new();
    let p = PropertyId::new(1, 1);
    let q = PropertyId::new(1, 2);
    assert!(index.insert(7, p));
    assert!(!index.insert(7, p));
    assert!(index.insert(7, q));
    assert!(index.insert(8, p));
    assert!(index.contains(7, &p));
    assert!(!index.contains(9, &p));
    assert_eq!(index.list(7), vec![p, q]);
    assert!(index.remove(7, &p));
    assert!(!index.remove(7, &p));
    assert_eq!(index.list(7), vec![q]);
    assert_eq!(index.take(7), vec![q]);
    assert_eq!(index.take(7), vec![]);
    assert_eq!(index.list(8), vec![p]);
    assert_eq!(p.index_code(), (1u128 << 32) + 1);
}
