use netsync::connection::{ConnectionRegistry, Refusal};
use netsync::encodable::Encodable;
use netsync::identity::{Identity, PropertyId};
use netsync::session::{SendError, Session};
use netsync::subscription::SubscriptionRegistry;
use netsync::webrtc_session::WebrtcSession;

#[test]
fn registered_connection_is_live_until_taken_out() {
    let mut connections = ConnectionRegistry::new();
    let mut subscriptions = SubscriptionRegistry::new();
    let key = connections.register(Session::reliable_stream(16));
    assert!(connections.is_live(key));
    let session = connections.deregister(key, &mut subscriptions);
    assert_eq!(session, Some(Session::reliable_stream(16)));
    assert!(!connections.is_live(key));
    assert_eq!(connections.deregister(key, &mut subscriptions), None);
}

#[test]
fn keys_are_never_handed_out_twice() {
    let mut connections = ConnectionRegistry::new();
    let mut subscriptions = SubscriptionRegistry::new();
    let first = connections.register(Session::reliable_stream(16));
    let second = connections.register(Session::reliable_stream(16));
    assert_ne!(first, second);
    connections.deregister(first, &mut subscriptions);
    let third = connections.register(Session::reliable_stream(8));
    assert_ne!(third, first);
    assert_ne!(third, second);
    assert_eq!(third.slot(), first.slot());
    assert_eq!(third.generation(), first.generation() + 1);
    assert!(!connections.is_live(first));
    assert!(connections.is_live(second));
    assert!(connections.is_live(third));
}

#[test]
fn deliver_queues_the_byte_form() {
    let mut connections = ConnectionRegistry::new();
    let key = connections.register(Session::reliable_stream(16));
    assert_eq!(connections.deliver(key, &Encodable::Bool(true)), Ok(()));
    assert_eq!(connections.deliver(key, &Encodable::Int(2)), Ok(()));
    assert_eq!(
        connections.take_outbound(key),
        vec![vec![3u8, 1], vec![1u8, 2, 0, 0, 0, 0, 0, 0, 0]]
    );
    assert_eq!(connections.take_outbound(key), Vec::<Vec<u8>>::new());
}

#[test]
fn deliver_to_a_deregistered_key_is_a_silent_no_op() {
    let mut connections = ConnectionRegistry::new();
    let mut subscriptions = SubscriptionRegistry::new();
    let other = connections.register(Session::reliable_stream(16));
    let key = connections.register(Session::reliable_stream(16));
    connections.deregister(key, &mut subscriptions);
    assert_eq!(connections.deliver(key, &Encodable::Bool(true)), Ok(()));
    assert_eq!(connections.deliver_encoded(key, &[1, 2, 3]), Ok(()));
    assert_eq!(connections.take_outbound(key), Vec::<Vec<u8>>::new());
    assert_eq!(connections.take_outbound(other), Vec::<Vec<u8>>::new());
    assert!(!connections.is_live(key));
}

#[test]
fn stale_key_does_not_reach_the_connection_that_took_its_slot() {
    let mut connections = ConnectionRegistry::new();
    let mut subscriptions = SubscriptionRegistry::new();
    let stale = connections.register(Session::reliable_stream(16));
    connections.deregister(stale, &mut subscriptions);
    let fresh = connections.register(Session::reliable_stream(16));
    assert_eq!(fresh.slot(), stale.slot());
    assert_eq!(connections.deliver_encoded(stale, &[7]), Ok(()));
    connections.close(stale, &mut subscriptions);
    assert_eq!(connections.take_outbound(stale), Vec::<Vec<u8>>::new());
    assert_eq!(connections.deliver_encoded(fresh, &[8]), Ok(()));
    assert_eq!(connections.take_outbound(fresh), vec![vec![8u8]]);
}

#[test]
fn deliver_reports_what_the_session_says() {
    let mut connections = ConnectionRegistry::new();
    let small = connections.register(Session::reliable_stream(1));
    let closed = connections.register(Session::reliable_stream(16));
    let datagrams = connections.register(Session::Webrtc(WebrtcSession {}));
    let mut subscriptions = SubscriptionRegistry::new();
    connections.close(closed, &mut subscriptions);
    assert_eq!(connections.deliver(small, &Encodable::Bool(true)), Err(SendError::TooLarge));
    assert_eq!(connections.deliver(closed, &Encodable::Bool(true)), Err(SendError::Closed));
    assert_eq!(
        connections.deliver(datagrams, &Encodable::Bool(true)),
        Err(SendError::NotImplemented)
    );
    assert_eq!(connections.take_outbound(small), Vec::<Vec<u8>>::new());
    assert_eq!(connections.take_outbound(closed), Vec::<Vec<u8>>::new());
    assert!(connections.is_live(closed));
}

#[test]
fn deliver_to_all_passes_over_those_that_refuse() {
    let mut connections = ConnectionRegistry::new();
    let mut subscriptions = SubscriptionRegistry::new();
    let a = connections.register(Session::reliable_stream(16));
    let b = connections.register(Session::reliable_stream(2));
    let c = connections.register(Session::reliable_stream(16));
    let d = connections.register(Session::reliable_stream(16));
    let gone = connections.register(Session::reliable_stream(16));
    connections.deregister(gone, &mut subscriptions);
    connections.close(c, &mut subscriptions);
    let refusals = connections.deliver_to_all(&vec![a, b, gone, c], &[1, 2, 3]);
    assert_eq!(
        refusals,
        vec![
            Refusal { connection: b, error: SendError::TooLarge },
            Refusal { connection: c, error: SendError::Closed }
        ]
    );
    assert_eq!(connections.take_outbound(a), vec![vec![1u8, 2, 3]]);
    assert_eq!(connections.take_outbound(b), Vec::<Vec<u8>>::new());
    assert_eq!(connections.take_outbound(c), Vec::<Vec<u8>>::new());
    assert_eq!(connections.take_outbound(d), Vec::<Vec<u8>>::new());
}

#[test]
fn deliver_to_all_serves_the_audience_in_turn() {
    let mut connections = ConnectionRegistry::new();
    let a = connections.register(Session::reliable_stream(16));
    let b = connections.register(Session::reliable_stream(16));
    assert_eq!(connections.deliver_to_all(&vec![a, b, a], &[9]), vec![]);
    assert_eq!(connections.deliver_to_all(&vec![], &[8]), vec![]);
    let narrow = connections.register(Session::reliable_stream(0));
    assert_eq!(
        connections.deliver_to_all(&vec![narrow, a, narrow], &[7]),
        vec![
            Refusal { connection: narrow, error: SendError::TooLarge },
            Refusal { connection: narrow, error: SendError::TooLarge }
        ]
    );
    assert_eq!(connections.take_outbound(a), vec![vec![9u8], vec![9u8], vec![7u8]]);
    assert_eq!(connections.deliver_to_all(&vec![a], &[9]), vec![]);
    assert_eq!(connections.deliver_to_all(&vec![a], &[9]), vec![]);
    assert_eq!(connections.take_outbound(a), vec![vec![9u8], vec![9u8]]);
    assert_eq!(connections.take_outbound(b), vec![vec![9u8]]);
}

#[test]
fn close_ends_the_subscriptions_and_keeps_the_connection() {
    let mut connections = ConnectionRegistry::new();
    let mut subscriptions = SubscriptionRegistry::new();
    let a = connections.register(Session::reliable_stream(16));
    let b = connections.register(Session::reliable_stream(16));
    let p = PropertyId::new(1, 1);
    subscriptions.subscribe(p, a);
    subscriptions.subscribe(p, b);
    assert_eq!(connections.deliver_encoded(a, &[1]), Ok(()));
    connections.close(a, &mut subscriptions);
    assert!(connections.is_live(a));
    assert!(!subscriptions.is_subscribed(p, a));
    assert!(subscriptions.is_subscribed(p, b));
    assert_eq!(connections.deliver_encoded(a, &[2]), Err(SendError::Closed));
    assert_eq!(connections.take_outbound(a), vec![vec![1u8]]);
    assert_eq!(
        connections.deregister(a, &mut subscriptions).map(|session| session.is_open()),
        Some(false)
    );
}

#[test]
fn deregister_ends_the_subscriptions_of_the_connection() {
    let mut connections = ConnectionRegistry::new();
    let mut subscriptions = SubscriptionRegistry::new();
    let a = connections.register(Session::reliable_stream(16));
    let b = connections.register(Session::reliable_stream(16));
    let p = PropertyId::new(1, 1);
    let q = PropertyId::new(1, 2);
    subscriptions.subscribe(p, a);
    subscriptions.subscribe(q, a);
    subscriptions.subscribe(p, b);
    connections.deregister(a, &mut subscriptions);
    assert!(!subscriptions.is_subscribed(p, a));
    assert!(!subscriptions.is_subscribed(q, a));
    assert!(subscriptions.is_subscribed(p, b));
    assert_eq!(subscriptions.subscriptions_of(a), vec![]);
    assert_eq!(subscriptions.subscribers_of(p), vec![b]);
    assert_eq!(subscriptions.subscribers_of(q), vec![]);
}

#[test]
fn codes_tell_identities_apart() {
    let mut connections = ConnectionRegistry::new();
    let mut subscriptions = SubscriptionRegistry::new();
    let first = connections.register(Session::reliable_stream(16));
    let second = connections.register(Session::reliable_stream(16));
    connections.deregister(first, &mut subscriptions);
    let third = connections.register(Session::reliable_stream(16));
    assert_ne!(first.index_code(), second.index_code());
    assert_ne!(first.index_code(), third.index_code());
    assert_eq!(first.index_code(), 0);
    assert_eq!(third.index_code(), 1);
    assert_eq!(second.index_code(), 1u128 << 64);
    assert!(first.same(&first));
    assert!(!first.same(&third));
    assert_eq!(PropertyId::new(1, 2).index_code(), (1u128 << 32) + 2);
    assert_eq!(PropertyId::new(0, 7).index_code(), 7);
    assert_ne!(PropertyId::new(1, 2).index_code(), PropertyId::new(2, 1).index_code());
    assert!(PropertyId::new(1, 2).same(&PropertyId { entity: 1, attribute: 2 }));
    assert!(!PropertyId::new(1, 2).same(&PropertyId::new(1, 3)));
}
