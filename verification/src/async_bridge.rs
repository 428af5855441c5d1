//! Bridging Rust futures to JS callbacks under the RIDL cancellation
//! semantics: each bridged future is a task of an `SharedTaskManager`, and
//! before each poll the bridge decides whether the task was cancelled or ran
//! out of time.

use crate::async_task::{SharedTaskManager, TaskPriority, TaskStatus, AsyncTaskManager};
use std::sync::Arc;
use vstd::prelude::*;

verus! {

/// Errors of bridged tasks.
#[derive(Debug)]
pub enum AsyncBridgeError {
    /// The task was cancelled.
    Cancelled,
    /// The task ran out of time.
    TimedOut,
    /// The owning context was dropped.
    ContextDropped,
    /// The future failed with a message.
    FutureError(String),
}

impl Clone for AsyncBridgeError {
    /// An error equal to this one.
    fn clone(&self) -> (r: Self)
        ensures
            r == *self,
    {
        match self {
            AsyncBridgeError::Cancelled => AsyncBridgeError::Cancelled,
            AsyncBridgeError::TimedOut => AsyncBridgeError::TimedOut,
            AsyncBridgeError::ContextDropped => AsyncBridgeError::ContextDropped,
            AsyncBridgeError::FutureError(msg) => AsyncBridgeError::FutureError(msg.clone()),
        }
    }
}

/// The text of a bridge error.
pub open spec fn bridge_error_text(e: AsyncBridgeError) -> Seq<char> {
    match e {
        AsyncBridgeError::Cancelled => "Task was cancelled"@,
        AsyncBridgeError::TimedOut => "Task timed out"@,
        AsyncBridgeError::ContextDropped => "Context was dropped"@,
        AsyncBridgeError::FutureError(msg) => "Future error: "@ + msg@,
    }
}

impl AsyncBridgeError {
    /// The error as text.
    pub fn to_string(&self) -> (r: String)
        ensures
            r@ == bridge_error_text(*self),
    {
        match self {
            AsyncBridgeError::Cancelled => String::from_str("Task was cancelled"),
            AsyncBridgeError::TimedOut => String::from_str("Task timed out"),
            AsyncBridgeError::ContextDropped => String::from_str("Context was dropped"),
            AsyncBridgeError::FutureError(msg) => {
                let mut s = String::from_str("Future error: ");
                s.append(msg.as_str());
                s
            },
        }
    }

    /// Whether a finished task's result is handed to its callback: every
    /// result but a cancellation or a timeout is.
    pub open spec fn spec_delivers<T>(result: Result<T, AsyncBridgeError>) -> bool {
        match result {
            Ok(_) => true,
            Err(AsyncBridgeError::Cancelled) => false,
            Err(AsyncBridgeError::TimedOut) => false,
            Err(_) => true,
        }
    }
}

/// Whether a finished task's result is handed to its callback.
pub fn should_deliver<T>(result: &Result<T, AsyncBridgeError>) -> (r: bool)
    ensures
        r == AsyncBridgeError::spec_delivers(*result),
{
    match result {
        Ok(_) => true,
        Err(AsyncBridgeError::Cancelled) => false,
        Err(AsyncBridgeError::TimedOut) => false,
        Err(_) => true,
    }
}

/// What happens before a poll of a bridged future.
#[derive(Debug, Clone, Copy, PartialEq, Eq, Structural)]
pub enum PollGate {
    /// The task was cancelled: the future ends with `Cancelled`.
    Cancelled,
    /// The task is marked timed out: the future ends with `TimedOut`.
    TimedOut,
    /// The task's deadline has passed: the task is cancelled and the future
    /// ends with `TimedOut`.
    CancelTimedOut,
    /// The inner future is polled.
    Poll,
}

/// The decision before a poll, from the task's status, its priority, and
/// whether its deadline has passed by the clock.
pub open spec fn spec_poll_gate(status: Option<TaskStatus>, priority: Option<TaskPriority>, deadline_passed: bool) -> PollGate {
    if status == Some(TaskStatus::Cancelled) {
        PollGate::Cancelled
    } else if status == Some(TaskStatus::TimedOut) {
        PollGate::TimedOut
    } else if (priority matches Some(TaskPriority::Timeout(_))) && deadline_passed {
        PollGate::CancelTimedOut
    } else {
        PollGate::Poll
    }
}

/// Decides what happens before a poll, from what the task manager reports.
pub fn poll_gate(status: Option<TaskStatus>, priority: Option<TaskPriority>, deadline_passed: bool) -> (r: PollGate)
    ensures
        r == spec_poll_gate(status, priority, deadline_passed),
{
    match status {
        Some(TaskStatus::Cancelled) => PollGate::Cancelled,
        Some(TaskStatus::TimedOut) => PollGate::TimedOut,
        _ => match priority {
            Some(TaskPriority::Timeout(_)) => if deadline_passed {
                PollGate::CancelTimedOut
            } else {
                PollGate::Poll
            },
            _ => PollGate::Poll,
        },
    }
}

/// What the future ends with after a decision: an error, or `None` when
/// the inner future is polled.
pub open spec fn gate_error(g: PollGate) -> Option<AsyncBridgeError> {
    match g {
        PollGate::Cancelled => Some(AsyncBridgeError::Cancelled),
        PollGate::TimedOut => Some(AsyncBridgeError::TimedOut),
        PollGate::CancelTimedOut => Some(AsyncBridgeError::TimedOut),
        PollGate::Poll => None,
    }
}

/// A task that the manager reports cancelled ends its future with
/// `Cancelled`, whatever its priority and its deadline; one reported timed
/// out ends with `TimedOut`; a pending or running task without a deadline
/// is polled.
pub proof fn law_gate_follows_status(
    status: Option<TaskStatus>,
    priority: Option<TaskPriority>,
    deadline_passed: bool,
)
    ensures
        status == Some(TaskStatus::Cancelled) ==> gate_error(spec_poll_gate(status, priority, deadline_passed))
            == Some(AsyncBridgeError::Cancelled),
        status == Some(TaskStatus::TimedOut) ==> gate_error(spec_poll_gate(status, priority, deadline_passed))
            == Some(AsyncBridgeError::TimedOut),
        (status == Some(TaskStatus::Pending) || status == Some(TaskStatus::Running)) && !(priority matches Some(
            TaskPriority::Timeout(_),
        )) ==> gate_error(spec_poll_gate(status, priority, deadline_passed)) is None,
        (status == Some(TaskStatus::Pending) || status == Some(TaskStatus::Running)) && (priority matches Some(
            TaskPriority::Timeout(_),
        )) ==> gate_error(spec_poll_gate(status, priority, deadline_passed)) == (if deadline_passed {
            Some(AsyncBridgeError::TimedOut)
        } else {
            None
        }),
{
}

/// A future bound to a task of a task manager.
pub struct CancellableFuture<F> {
    future: F,
    task_id: u64,
    task_manager: Arc<SharedTaskManager>,
}

impl<F> CancellableFuture<F> {
    /// Binds `future` to the task `task_id` of `task_manager`.
    pub fn new(future: F, task_id: u64, task_manager: Arc<SharedTaskManager>) -> (r: Self)
        ensures
            r.spec_task_id() == task_id,
            r.spec_future() == future,
    {
        CancellableFuture { future, task_id, task_manager }
    }

    pub closed spec fn spec_task_id(&self) -> u64 {
        self.task_id
    }

    pub closed spec fn spec_future(&self) -> F {
        self.future
    }

    /// The task id.
    pub fn task_id(&self) -> (r: u64)
        ensures
            r == self.spec_task_id(),
    {
        self.task_id
    }

    /// Whether the task has been cancelled.
    pub fn is_cancelled(&self) -> (r: bool)
        ensures
            exists|s: crate::async_task::AsyncTaskManager|
                s.wf() && r == (#[trigger] s.spec_status(self.spec_task_id()) == Some(
                    TaskStatus::Cancelled,
                )),
    {
        let status = self.task_manager.get_task_status(self.task_id);
        let ghost s = choose|s: crate::async_task::AsyncTaskManager|
            s.wf() && status == #[trigger] s.spec_status(self.task_id);
        let r = match status {
            Some(TaskStatus::Cancelled) => true,
            _ => false,
        };
        assert(s.wf() && r == (s.spec_status(self.spec_task_id()) == Some(TaskStatus::Cancelled)));
        r
    }

    /// The decision taken before each poll of the inner future, by
    /// `poll_gate` on what the task manager reports: a cancelled task ends
    /// with `Cancelled`; a task marked timed out ends with `TimedOut`; a
    /// deadline task whose deadline has passed is cancelled and ends with
    /// `TimedOut`; otherwise (`None`) the inner future is polled.
    pub fn check_before_poll(&self) -> (r: Option<AsyncBridgeError>)
        ensures
            exists|s1: AsyncTaskManager, s2: AsyncTaskManager, s3: AsyncTaskManager, elapsed_ms: u128|
                s1.wf() && s2.wf() && s3.wf() && r == #[trigger] gate_error(
                    spec_poll_gate(
                        s1.spec_status(self.spec_task_id()),
                        s2.spec_priority(self.spec_task_id()),
                        s3.spec_task_should_cancel_after(self.spec_task_id(), elapsed_ms),
                    ),
                ),
    {
        let status = self.task_manager.get_task_status(self.task_id);
        let priority = self.task_manager.get_task_priority(self.task_id);
        let ghost id = self.task_id;
        let ghost s1 = choose|s: AsyncTaskManager| s.wf() && status == #[trigger] s.spec_status(id);
        let ghost s2 = choose|s: AsyncTaskManager| s.wf() && priority == #[trigger] s.spec_priority(id);
        let deadline_passed = match priority {
            Some(TaskPriority::Timeout(_)) => self.task_manager.task_should_cancel(self.task_id),
            _ => false,
        };
        let ghost (s3, ms) = if priority matches Some(TaskPriority::Timeout(_)) {
            choose|s: AsyncTaskManager, elapsed_ms: u128|
                s.wf() && deadline_passed == #[trigger] s.spec_task_should_cancel_after(id, elapsed_ms)
        } else {
            (s1, 0u128)
        };
        let g = poll_gate(status, priority, deadline_passed);
        assert(g == spec_poll_gate(s1.spec_status(id), s2.spec_priority(id), s3.spec_task_should_cancel_after(id, ms)));
        let r = match g {
            PollGate::Cancelled => Some(AsyncBridgeError::Cancelled),
            PollGate::TimedOut => Some(AsyncBridgeError::TimedOut),
            PollGate::CancelTimedOut => {
                self.task_manager.cancel_task(self.task_id);
                Some(AsyncBridgeError::TimedOut)
            },
            PollGate::Poll => None,
        };
        assert(r == gate_error(g));
        assert(exists|a: AsyncTaskManager, b: AsyncTaskManager, c: AsyncTaskManager, e: u128|
            a.wf() && b.wf() && c.wf() && r == #[trigger] gate_error(
                spec_poll_gate(
                    a.spec_status(self.spec_task_id()),
                    b.spec_priority(self.spec_task_id()),
                    c.spec_task_should_cancel_after(self.spec_task_id(), e),
                ),
            )) by {
            assert(r == gate_error(
                spec_poll_gate(
                    s1.spec_status(self.spec_task_id()),
                    s2.spec_priority(self.spec_task_id()),
                    s3.spec_task_should_cancel_after(self.spec_task_id(), ms),
                ),
            ));
        }
        r
    }

    /// Marks the task completed once the inner future is ready.
    pub fn mark_completed(&self) {
        self.task_manager.complete_task(self.task_id);
    }

    /// The inner future, to be polled.
    pub fn future_mut(&mut self) -> (r: &mut F)
        ensures
            *r == old(self).spec_future(),
            final(self).spec_future() == *final(r),
            final(self).spec_task_id() == old(self).spec_task_id(),
    {
        &mut self.future
    }
}

/// Turns futures into tasks of a shared task manager.
pub struct AsyncBridge {
    task_manager: Arc<SharedTaskManager>,
}

impl AsyncBridge {
    /// A bridge over `task_manager`.
    pub fn new(task_manager: Arc<SharedTaskManager>) -> (r: Self)
        ensures
            r.spec_task_manager() == task_manager,
    {
        AsyncBridge { task_manager }
    }

    pub closed spec fn spec_task_manager(&self) -> Arc<SharedTaskManager> {
        self.task_manager
    }

    /// Cancels the task if it is cancellable or has timed out, and is not
    /// cancelled yet; says whether it did.
    pub fn cancel_task(&self, task_id: u64) -> (r: bool)
        ensures
            exists|s: crate::async_task::AsyncTaskManager, elapsed_ms: u128|
                s.wf() && r == (#[trigger] crate::async_task::cancel_outcome(s.tasks@, task_id, elapsed_ms)).0,
    {
        self.task_manager.cancel_task(task_id)
    }

    /// The task manager.
    pub fn task_manager(&self) -> (r: &SharedTaskManager)
        ensures
            *r == *self.spec_task_manager(),
    {
        &self.task_manager
    }

    /// A shared handle on the task manager, for worker threads.
    pub fn shared_task_manager(&self) -> (r: Arc<SharedTaskManager>)
        ensures
            r == self.spec_task_manager(),
    {
        Arc::clone(&self.task_manager)
    }
}

} // verus!
