use mquickjs_rs::async_task::{AsyncTask, AsyncTaskManager, CompletionItem, TaskPriority, TaskStatus};
use std::time::{Duration, Instant};

#[test]
fn test_task_priority_cancellable() {
    let mut manager = AsyncTaskManager::new();
    let task_id = manager.register_task(TaskPriority::Cancellable);

    assert!(manager.is_task_cancellable(task_id));
    assert!(!manager.is_task_non_cancellable(task_id));
    assert_eq!(manager.get_task_priority(task_id), Some(TaskPriority::Cancellable));
}

#[test]
fn test_task_priority_noncancellable() {
    let mut manager = AsyncTaskManager::new();
    let task_id = manager.register_task(TaskPriority::NonCancellable);

    assert!(!manager.is_task_cancellable(task_id));
    assert!(manager.is_task_non_cancellable(task_id));
    assert_eq!(manager.get_task_priority(task_id), Some(TaskPriority::NonCancellable));
}

#[test]
fn test_task_priority_timeout() {
    let mut manager = AsyncTaskManager::new();
    let task_id = manager.register_task(TaskPriority::Timeout(5000));

    assert!(!manager.is_task_cancellable(task_id));
    assert!(!manager.is_task_non_cancellable(task_id));
    assert_eq!(manager.get_task_priority(task_id), Some(TaskPriority::Timeout(5000)));
}

#[test]
fn test_task_lifecycle() {
    let mut manager = AsyncTaskManager::new();
    let task_id = manager.register_task(TaskPriority::Cancellable);

    assert_eq!(manager.get_task_status(task_id), Some(TaskStatus::Pending));

    manager.start_task(task_id);
    assert_eq!(manager.get_task_status(task_id), Some(TaskStatus::Running));

    manager.complete_task(task_id);
    assert_eq!(manager.get_task_status(task_id), Some(TaskStatus::Completed));
}

#[test]
fn test_cancel_cancellable_task() {
    let mut manager = AsyncTaskManager::new();
    let task_id = manager.register_task(TaskPriority::Cancellable);

    assert!(manager.cancel_task(task_id));
    assert_eq!(manager.get_task_status(task_id), Some(TaskStatus::Cancelled));
}

#[test]
fn test_cancel_noncancellable_task() {
    let mut manager = AsyncTaskManager::new();
    let task_id = manager.register_task(TaskPriority::NonCancellable);

    assert!(!manager.cancel_task(task_id));
    assert_eq!(manager.get_task_status(task_id), Some(TaskStatus::Pending));
}

#[test]
fn test_cancel_all_cancellable() {
    let mut manager = AsyncTaskManager::new();

    let cancellable_id = manager.register_task(TaskPriority::Cancellable);
    let noncancellable_id = manager.register_task(TaskPriority::NonCancellable);
    let timeout_id = manager.register_task(TaskPriority::Timeout(5000));

    let cancelled_ids = manager.cancel_all_cancellable();

    assert_eq!(cancelled_ids.len(), 1);
    assert!(cancelled_ids.contains(&cancellable_id));

    assert_eq!(manager.get_task_status(cancellable_id), Some(TaskStatus::Cancelled));
    assert_eq!(manager.get_task_status(noncancellable_id), Some(TaskStatus::Pending));
    assert_eq!(manager.get_task_status(timeout_id), Some(TaskStatus::Pending));
}

#[test]
fn test_timeout_task() {
    let mut manager = AsyncTaskManager::new();
    let task_id = manager.register_task(TaskPriority::Timeout(50));

    assert!(!manager.cancel_timed_out_tasks().contains(&task_id));
    assert_eq!(manager.get_task_status(task_id), Some(TaskStatus::Pending));

    let start = Instant::now();
    while start.elapsed() < Duration::from_millis(100) {}

    let cancelled_ids = manager.cancel_timed_out_tasks();
    assert!(cancelled_ids.contains(&task_id));
    assert_eq!(manager.get_task_status(task_id), Some(TaskStatus::Cancelled));
}

#[test]
fn test_context_dropping() {
    let mut manager = AsyncTaskManager::new();

    assert!(!manager.is_context_dropping());

    manager.mark_context_dropping();
    assert!(manager.is_context_dropping());
}

#[test]
fn test_active_task_count() {
    let mut manager = AsyncTaskManager::new();

    assert_eq!(manager.active_task_count(), 0);

    let task1 = manager.register_task(TaskPriority::Cancellable);
    let task2 = manager.register_task(TaskPriority::NonCancellable);

    assert_eq!(manager.active_task_count(), 2);

    manager.start_task(task1);
    assert_eq!(manager.active_task_count(), 2);

    manager.complete_task(task1);
    assert_eq!(manager.active_task_count(), 1);

    assert!(!manager.cancel_task(task2));
    assert_eq!(manager.active_task_count(), 1);

    manager.start_task(task2);
    manager.complete_task(task2);
    assert_eq!(manager.active_task_count(), 0);
}

#[test]
fn test_cancellable_task_count() {
    let mut manager = AsyncTaskManager::new();

    assert_eq!(manager.cancellable_task_count(), 0);

    let _task1 = manager.register_task(TaskPriority::Cancellable);
    let _task2 = manager.register_task(TaskPriority::NonCancellable);
    let _task3 = manager.register_task(TaskPriority::Timeout(5000));

    assert_eq!(manager.cancellable_task_count(), 1);
}

#[test]
fn test_non_cancellable_task_count() {
    let mut manager = AsyncTaskManager::new();

    assert_eq!(manager.non_cancellable_task_count(), 0);

    let _task1 = manager.register_task(TaskPriority::Cancellable);
    let _task2 = manager.register_task(TaskPriority::NonCancellable);
    let _task3 = manager.register_task(TaskPriority::Timeout(5000));

    assert_eq!(manager.non_cancellable_task_count(), 1);
}

#[test]
fn test_get_active_task_ids() {
    let mut manager = AsyncTaskManager::new();

    let task1 = manager.register_task(TaskPriority::Cancellable);
    let task2 = manager.register_task(TaskPriority::NonCancellable);
    let task3 = manager.register_task(TaskPriority::Timeout(5000));

    let active_ids = manager.get_active_task_ids();
    assert_eq!(active_ids.len(), 3);
    assert!(active_ids.contains(&task1));
    assert!(active_ids.contains(&task2));
    assert!(active_ids.contains(&task3));

    manager.start_task(task1);
    manager.complete_task(task1);

    let active_ids = manager.get_active_task_ids();
    assert_eq!(active_ids.len(), 2);
    assert!(!active_ids.contains(&task1));
    assert!(active_ids.contains(&task2));
    assert!(active_ids.contains(&task3));
}

#[test]
fn test_get_cancellable_task_ids() {
    let mut manager = AsyncTaskManager::new();

    let task1 = manager.register_task(TaskPriority::Cancellable);
    let task2 = manager.register_task(TaskPriority::NonCancellable);
    let task3 = manager.register_task(TaskPriority::Timeout(5000));

    let cancellable_ids = manager.get_cancellable_task_ids();
    assert_eq!(cancellable_ids.len(), 1);
    assert!(cancellable_ids.contains(&task1));
    assert!(!cancellable_ids.contains(&task2));
    assert!(!cancellable_ids.contains(&task3));
}

#[test]
fn test_get_non_cancellable_task_ids() {
    let mut manager = AsyncTaskManager::new();

    let task1 = manager.register_task(TaskPriority::Cancellable);
    let task2 = manager.register_task(TaskPriority::NonCancellable);
    let task3 = manager.register_task(TaskPriority::Timeout(5000));

    let non_cancellable_ids = manager.get_non_cancellable_task_ids();
    assert_eq!(non_cancellable_ids.len(), 1);
    assert!(!non_cancellable_ids.contains(&task1));
    assert!(non_cancellable_ids.contains(&task2));
    assert!(!non_cancellable_ids.contains(&task3));
}

#[test]
fn test_cleanup_finished_tasks() {
    let mut manager = AsyncTaskManager::new();

    let task1 = manager.register_task(TaskPriority::Cancellable);
    let task2 = manager.register_task(TaskPriority::NonCancellable);

    manager.start_task(task1);
    manager.complete_task(task1);

    assert!(!manager.cancel_task(task2));

    manager.start_task(task2);
    manager.complete_task(task2);

    assert_eq!(manager.active_task_count(), 0);

    manager.cleanup_finished_tasks();

    assert_eq!(manager.get_task_status(task1), None);
    assert_eq!(manager.get_task_status(task2), None);
}

#[test]
fn test_completion_queue_push_drain() {
    let mut manager = AsyncTaskManager::new();

    manager.push_completion(CompletionItem {
        task_id: 1,
        result: Ok("result1".to_string()),
    });
    manager.push_completion(CompletionItem {
        task_id: 2,
        result: Err("error2".to_string()),
    });

    assert!(manager.has_completions());

    let items = manager.drain_completions();
    assert_eq!(items.len(), 2);
    assert!(!manager.has_completions());

    assert_eq!(items[0].task_id, 1);
    assert_eq!(items[0].result, Ok("result1".to_string()));
    assert_eq!(items[1].task_id, 2);
    assert_eq!(items[1].result, Err("error2".to_string()));
}

#[test]
fn test_callback_registry() {
    let mut manager = AsyncTaskManager::new();

    manager.register_callback(1, 12345);
    manager.register_callback(2, 67890);

    let cb1 = manager.take_callback(1);
    assert_eq!(cb1, Some(12345));

    let cb1_again = manager.take_callback(1);
    assert_eq!(cb1_again, None);

    let cb2 = manager.take_callback(2);
    assert_eq!(cb2, Some(67890));
}

#[test]
fn test_empty_drain() {
    let mut task_manager = AsyncTaskManager::new();

    let items = task_manager.drain_completions();
    assert!(items.is_empty());
    assert!(!task_manager.has_completions());
}

#[test]
fn completions_call_each_callback_once_in_order() {
    let mut manager = AsyncTaskManager::new();
    manager.register_callback(1, 101);
    manager.register_callback(2, 102);
    manager.push_completion(CompletionItem { task_id: 1, result: Ok("v".to_string()) });
    manager.push_completion(CompletionItem { task_id: 3, result: Err("lost".to_string()) });
    manager.push_completion(CompletionItem { task_id: 2, result: Err("e".to_string()) });
    manager.push_completion(CompletionItem { task_id: 1, result: Ok("again".to_string()) });
    let calls = manager.take_completion_calls();
    assert_eq!(calls.len(), 2);
    assert_eq!((calls[0].callback, calls[0].error.clone(), calls[0].value.clone()), (101, None, Some("v".to_string())));
    assert_eq!((calls[1].callback, calls[1].error.clone(), calls[1].value.clone()), (102, Some("e".to_string()), None));
    assert!(!manager.has_completions());
    assert_eq!(manager.take_callback(1), None);
    assert_eq!(manager.take_completion_calls().len(), 0);
}

#[test]
fn zero_deadline_has_always_timed_out() {
    let t = AsyncTask::new(1, TaskPriority::Timeout(0));
    assert!(t.has_timed_out());
    assert!(t.should_cancel());
    let long = AsyncTask::new(2, TaskPriority::Timeout(3_600_000));
    assert!(!long.has_timed_out());
    assert!(!long.should_cancel());
    let plain = AsyncTask::new(3, TaskPriority::Cancellable);
    assert!(!plain.has_timed_out());
    assert!(!plain.should_cancel());
    let mut m = AsyncTaskManager::new();
    let id = m.register_task(TaskPriority::Timeout(0));
    assert!(m.task_should_cancel(id));
    assert!(!m.task_should_cancel(id + 100));
}

#[test]
fn deadline_task_is_not_cancelled_before_its_deadline() {
    let mut t = AsyncTask::new(7, TaskPriority::Timeout(60_000));
    assert!(!t.cancel());
    assert_eq!(t.status, TaskStatus::Pending);
    assert!(!t.cancelled);
    let mut manager = AsyncTaskManager::new();
    let id = manager.register_task(TaskPriority::Timeout(60_000));
    assert!(!manager.cancel_task(id));
    assert_eq!(manager.get_task_status(id), Some(TaskStatus::Pending));
}

#[test]
fn deadline_task_past_its_deadline_is_cancelled() {
    let mut t = AsyncTask::new(8, TaskPriority::Timeout(0));
    assert!(t.cancel());
    assert_eq!(t.status, TaskStatus::Cancelled);
    assert!(!t.cancel());
    let mut manager = AsyncTaskManager::new();
    let id = manager.register_task(TaskPriority::Timeout(0));
    let kept = manager.register_task(TaskPriority::Timeout(60_000));
    assert_eq!(manager.cancel_timed_out_tasks(), vec![id]);
    assert_eq!(manager.get_task_status(id), Some(TaskStatus::Cancelled));
    assert_eq!(manager.get_task_status(kept), Some(TaskStatus::Pending));
}

#[test]
fn cancel_all_twice_returns_nothing_the_second_time() {
    let mut manager = AsyncTaskManager::new();
    let a = manager.register_task(TaskPriority::Cancellable);
    let n = manager.register_task(TaskPriority::NonCancellable);
    let t = manager.register_task(TaskPriority::Timeout(60_000));
    assert_eq!(manager.cancel_all_cancellable(), vec![a]);
    assert_eq!(manager.cancel_all_cancellable(), Vec::<u64>::new());
    assert_eq!(manager.get_task_status(n), Some(TaskStatus::Pending));
    assert_eq!(manager.get_task_status(t), Some(TaskStatus::Pending));
    manager.cleanup_finished_tasks();
    assert_eq!(manager.get_task_status(a), None);
    assert_eq!(manager.get_task_status(n), Some(TaskStatus::Pending));
}
