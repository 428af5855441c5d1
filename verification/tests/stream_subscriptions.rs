use mquickjs_rs::async_stream::{AsyncStream, Subscribers};
use mquickjs_rs::handles::{ContextId, Function, Root, SharedRootsRegistry};
use std::sync::Arc;

fn callback(registry: &Arc<SharedRootsRegistry>) -> Root<Function> {
    Root::register(registry.clone(), ContextId(1), 0x10).unwrap()
}

#[test]
fn unsubscribe_removes_the_subscriber() {
    let registry = Arc::new(SharedRootsRegistry::new());
    let mut stream = AsyncStream::<i32>::new();
    let sub = stream.subscribe(callback(&registry)).unwrap();
    assert_eq!(stream.subscriber_count(), 1);
    sub.unsubscribe(&mut stream);
    assert_eq!(stream.subscriber_count(), 0);
}

#[test]
fn subscription_ids_are_distinct_and_increasing() {
    let registry = Arc::new(SharedRootsRegistry::new());
    let mut stream = AsyncStream::<i32>::new();
    let mut ids = Vec::new();
    for _ in 0..10 {
        ids.push(stream.subscribe(callback(&registry)).unwrap().id());
    }
    assert_eq!(ids, (1..=10).collect::<Vec<u64>>());
    assert_eq!(stream.subscriber_ids(), ids);
}

#[test]
fn clear_removes_every_subscriber_and_ids_stay_fresh() {
    let registry = Arc::new(SharedRootsRegistry::new());
    let mut stream = AsyncStream::<i32>::new();
    let first = stream.subscribe(callback(&registry)).unwrap();
    let _second = stream.subscribe(callback(&registry)).unwrap();
    stream.clear();
    assert_eq!(stream.subscriber_count(), 0);
    let third = stream.subscribe(callback(&registry)).unwrap();
    assert_eq!(third.id(), 3);
    first.unsubscribe(&mut stream);
    assert_eq!(stream.subscriber_count(), 1);
}

#[test]
fn removing_keeps_the_others_in_order() {
    let mut subs = Subscribers::<u32>::new();
    let a = subs.subscribe(10).unwrap();
    let b = subs.subscribe(20).unwrap();
    let c = subs.subscribe(30).unwrap();
    subs.remove(b);
    assert_eq!(subs.ids(), vec![a, c]);
    subs.remove(b);
    assert_eq!(subs.count(), 2);
    subs.remove(a);
    subs.remove(c);
    assert_eq!(subs.count(), 0);
    assert_eq!(subs.subscribe(40), Some(4));
}
