use mquickjs_rs::async_bridge::{poll_gate, should_deliver, AsyncBridge, AsyncBridgeError, CancellableFuture, PollGate};
use mquickjs_rs::async_task::{SharedTaskManager, TaskPriority, TaskStatus};
use std::sync::Arc;

#[test]
fn test_async_bridge_creation() {
    let task_manager = Arc::new(SharedTaskManager::new());
    let bridge = AsyncBridge::new(task_manager);

    assert_eq!(bridge.task_manager().active_task_count(), 0);
}

#[test]
fn test_cancellable_future() {
    let task_manager = Arc::new(SharedTaskManager::new());
    let task_id = task_manager.register_task(TaskPriority::Cancellable);

    let future = CancellableFuture::new(async { 42 }, task_id, task_manager.clone());

    assert!(!future.is_cancelled());

    task_manager.cancel_task(task_id);

    assert!(future.is_cancelled());
}

#[test]
fn test_async_bridge_error_display() {
    let errors = vec![
        AsyncBridgeError::Cancelled,
        AsyncBridgeError::TimedOut,
        AsyncBridgeError::ContextDropped,
        AsyncBridgeError::FutureError("test error".to_string()),
    ];

    for error in errors {
        let display = error.to_string();
        assert!(!display.is_empty());
    }
}

#[test]
fn bridge_error_texts() {
    assert_eq!(AsyncBridgeError::Cancelled.to_string(), "Task was cancelled");
    assert_eq!(AsyncBridgeError::TimedOut.to_string(), "Task timed out");
    assert_eq!(AsyncBridgeError::ContextDropped.to_string(), "Context was dropped");
    assert_eq!(AsyncBridgeError::FutureError("boom".to_string()).to_string(), "Future error: boom");
}

#[test]
fn results_delivered_to_callbacks() {
    assert!(should_deliver::<i32>(&Ok(1)));
    assert!(!should_deliver::<i32>(&Err(AsyncBridgeError::Cancelled)));
    assert!(!should_deliver::<i32>(&Err(AsyncBridgeError::TimedOut)));
    assert!(should_deliver::<i32>(&Err(AsyncBridgeError::ContextDropped)));
    assert!(should_deliver::<i32>(&Err(AsyncBridgeError::FutureError("e".to_string()))));
}

#[test]
fn poll_gate_decisions() {
    assert_eq!(poll_gate(Some(TaskStatus::Cancelled), Some(TaskPriority::Timeout(5)), true), PollGate::Cancelled);
    assert_eq!(poll_gate(Some(TaskStatus::TimedOut), Some(TaskPriority::Timeout(5)), true), PollGate::TimedOut);
    assert_eq!(poll_gate(Some(TaskStatus::Running), Some(TaskPriority::Timeout(5)), true), PollGate::CancelTimedOut);
    assert_eq!(poll_gate(Some(TaskStatus::Running), Some(TaskPriority::Timeout(5)), false), PollGate::Poll);
    assert_eq!(poll_gate(Some(TaskStatus::Running), Some(TaskPriority::Cancellable), true), PollGate::Poll);
    assert_eq!(poll_gate(None, None, false), PollGate::Poll);
}

#[test]
fn check_before_poll_follows_the_task() {
    let task_manager = Arc::new(SharedTaskManager::new());
    let id = task_manager.register_task(TaskPriority::Timeout(0));
    let future = CancellableFuture::new(async { 1 }, id, task_manager.clone());
    // A zero deadline has passed at once: the task is cancelled and times out.
    assert!(matches!(future.check_before_poll(), Some(AsyncBridgeError::TimedOut)));
    assert!(future.is_cancelled());
    assert!(matches!(future.check_before_poll(), Some(AsyncBridgeError::Cancelled)));

    let id2 = task_manager.register_task(TaskPriority::NonCancellable);
    let future2 = CancellableFuture::new(async { 2 }, id2, task_manager.clone());
    assert!(future2.check_before_poll().is_none());
    future2.mark_completed();
    assert_eq!(task_manager.get_task_status(id2), Some(TaskStatus::Pending));
    task_manager.start_task(id2);
    future2.mark_completed();
    assert_eq!(task_manager.get_task_status(id2), Some(TaskStatus::Completed));
}
