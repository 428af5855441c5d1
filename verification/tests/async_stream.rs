use mquickjs_rs::async_stream::{EventCompletion, EventQueue, ThreadSafeEventQueue};

#[test]
fn test_event_queue_new() {
    let queue = EventQueue::<i32>::new();
    assert!(queue.is_empty());
    assert_eq!(queue.len(), 0);
}

#[test]
fn test_event_queue_push_pop() {
    let mut queue = EventQueue::<i32>::new();

    queue.push(EventCompletion {
        stream_id: 1,
        value: 42,
    });

    assert!(!queue.is_empty());
    assert_eq!(queue.len(), 1);

    let event = queue.pop();
    assert!(event.is_some());
    let event = event.unwrap();
    assert_eq!(event.stream_id, 1);
    assert_eq!(event.value, 42);

    assert!(queue.is_empty());
    assert_eq!(queue.len(), 0);
}

#[test]
fn test_event_queue_multiple_events() {
    let mut queue = EventQueue::<i32>::new();

    for i in 0..5 {
        queue.push(EventCompletion {
            stream_id: i as u64,
            value: i * 10,
        });
    }

    assert_eq!(queue.len(), 5);

    for i in 0..5 {
        let event = queue.pop().unwrap();
        assert_eq!(event.stream_id, i as u64);
        assert_eq!(event.value, i * 10);
    }

    assert!(queue.is_empty());
}

#[test]
fn test_event_queue_pop_empty() {
    let mut queue = EventQueue::<i32>::new();
    assert!(queue.pop().is_none());
}

#[test]
fn test_event_queue_clear() {
    let mut queue = EventQueue::<i32>::new();

    for i in 0..5 {
        queue.push(EventCompletion {
            stream_id: i as u64,
            value: i,
        });
    }

    assert_eq!(queue.len(), 5);

    queue.clear();
    assert!(queue.is_empty());
    assert_eq!(queue.len(), 0);
}

#[test]
fn test_event_queue_send() {
    fn assert_send<T: Send>() {}
    assert_send::<EventQueue<i32>>();
}

#[test]
fn test_event_completion_send() {
    fn assert_send<T: Send>() {}
    assert_send::<EventCompletion<i32>>();
}

#[test]
fn test_event_completion_clone() {
    let event = EventCompletion {
        stream_id: 1,
        value: 42,
    };
    let cloned = event.clone();
    assert_eq!(event.stream_id, cloned.stream_id);
    assert_eq!(event.value, cloned.value);
}

#[test]
fn test_event_queue_drain() {
    let mut queue = EventQueue::<i32>::new();

    for i in 0..5 {
        queue.push(EventCompletion {
            stream_id: i as u64,
            value: i * 10,
        });
    }

    assert_eq!(queue.len(), 5);

    let events = queue.drain();
    assert_eq!(events.len(), 5);
    assert!(queue.is_empty());

    for (i, event) in events.iter().enumerate() {
        assert_eq!(event.stream_id, i as u64);
        assert_eq!(event.value, i as i32 * 10);
    }
}

#[test]
fn test_event_queue_drain_empty() {
    let mut queue = EventQueue::<i32>::new();
    let events = queue.drain();
    assert!(events.is_empty());
}

#[test]
fn test_thread_safe_event_queue_new() {
    let queue = ThreadSafeEventQueue::<i32>::new();
    assert!(queue.is_empty());
    assert_eq!(queue.len(), 0);
}

#[test]
fn test_thread_safe_event_queue_push_drain() {
    let queue = ThreadSafeEventQueue::<i32>::new();

    for i in 0..5 {
        queue.push(EventCompletion {
            stream_id: i as u64,
            value: i * 10,
        });
    }

    assert_eq!(queue.len(), 5);

    let events = queue.drain();
    assert_eq!(events.len(), 5);
    assert!(queue.is_empty());

    for (i, event) in events.iter().enumerate() {
        assert_eq!(event.stream_id, i as u64);
        assert_eq!(event.value, i as i32 * 10);
    }
}

#[test]
fn test_thread_safe_event_queue_clear() {
    let queue = ThreadSafeEventQueue::<i32>::new();

    for i in 0..5 {
        queue.push(EventCompletion {
            stream_id: i as u64,
            value: i,
        });
    }

    assert_eq!(queue.len(), 5);

    queue.clear();
    assert!(queue.is_empty());
    assert_eq!(queue.len(), 0);
}

#[test]
fn test_thread_safe_event_queue_send() {
    fn assert_send<T: Send>() {}
    assert_send::<ThreadSafeEventQueue<i32>>();
}

#[test]
fn test_thread_safe_event_queue_sync() {
    fn assert_sync<T: Sync>() {}
    assert_sync::<ThreadSafeEventQueue<i32>>();
}
