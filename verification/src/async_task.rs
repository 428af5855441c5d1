//! Async task management with the RIDL cancellation semantics:
//! - cancellable tasks (the default) are cancelled when their context drops;
//! - `@nonCancellable` tasks must run to completion even if the context drops;
//! - `@timeout(ms)` tasks are cancelled once their deadline has passed.
//!
//! `AsyncTaskManager` holds the whole state and carries the logic, with
//! exact contracts; `SharedTaskManager` shares one manager between the JS
//! thread and worker threads behind a lock.

use std::time::Duration;
use std::time::Instant;
use vstd::prelude::*;
use vstd::rwlock::RwLock;
use vstd::rwlock::RwLockPredicate;

verus! {

#[verifier::external_type_specification]
#[verifier::external_body]
pub struct ExInstant(std::time::Instant);

/// Reads the monotonic clock through `std::time::Instant::now`. Nothing is
/// stated of the reading: it depends on the time of the call.
#[verifier::external_body]
fn instant_now() -> Instant {
    Instant::now()
}

/// Calls `std::time::Instant::elapsed`. Nothing is stated of the result: it
/// depends on the time of the call.
#[verifier::external_body]
fn instant_elapsed(start: &Instant) -> Duration {
    start.elapsed()
}

/// Calls `std::time::Duration::as_millis`, the whole milliseconds of a span.
/// Nothing more is stated: the span comes from the clock.
#[verifier::external_body]
fn duration_as_millis(d: &Duration) -> u128 {
    d.as_millis()
}

/// A completed unit of asynchronous work, handed from a worker to the JS thread.
#[derive(Debug)]
pub struct CompletionItem {
    /// The task the result belongs to.
    pub task_id: u64,
    /// The result: a value on success, a message on failure.
    pub result: Result<String, String>,
}

/// Task priority, from the RIDL decorators.
#[derive(Debug, Clone, Copy, PartialEq, Eq, Structural)]
pub enum TaskPriority {
    /// Default: cancelled when the context drops.
    Cancellable,
    /// `@nonCancellable`: completes even if the context drops.
    NonCancellable,
    /// `@timeout(ms)`: cancelled once `ms` milliseconds have passed.
    Timeout(u64),
}

/// Task status.
#[derive(Debug, Clone, Copy, PartialEq, Eq, Structural)]
pub enum TaskStatus {
    /// Waiting to run.
    Pending,
    /// Running.
    Running,
    /// Finished successfully.
    Completed,
    /// Cancelled.
    Cancelled,
    /// Ran out of time.
    TimedOut,
}

/// The deadline in milliseconds that a priority carries, if any.
pub open spec fn priority_timeout(p: TaskPriority) -> Option<u64> {
    match p {
        TaskPriority::Timeout(ms) => Some(ms),
        _ => None,
    }
}

/// Whether a status counts as active (pending or running).
pub open spec fn status_is_active(s: TaskStatus) -> bool {
    s == TaskStatus::Pending || s == TaskStatus::Running
}

/// One asynchronous task.
#[derive(Debug, Clone, Copy)]
pub struct AsyncTask {
    /// Unique task id.
    pub id: u64,
    /// Priority from the RIDL decorators.
    pub priority: TaskPriority,
    /// Current status.
    pub status: TaskStatus,
    /// When the task was created.
    pub created_at: Instant,
    /// Deadline in milliseconds, for `Timeout` tasks.
    pub timeout: Option<u64>,
    /// Whether the task has been cancelled.
    pub cancelled: bool,
}

impl AsyncTask {
    /// The task's fields agree with each other: the deadline is the one its
    /// priority carries, and a cancelled task has the `Cancelled` status.
    pub open spec fn wf(self) -> bool {
        &&& self.timeout == priority_timeout(self.priority)
        &&& self.cancelled ==> self.status == TaskStatus::Cancelled
    }

    pub open spec fn spec_is_cancellable(self) -> bool {
        self.priority == TaskPriority::Cancellable
    }

    pub open spec fn spec_is_non_cancellable(self) -> bool {
        self.priority == TaskPriority::NonCancellable
    }

    pub open spec fn spec_has_timeout(self) -> bool {
        self.priority is Timeout
    }

    pub open spec fn spec_is_active(self) -> bool {
        status_is_active(self.status)
    }

    /// Whether `cancel` cancels the task when the clock reports `elapsed_ms`
    /// milliseconds since its creation: it is cancellable or has timed out,
    /// and is not cancelled yet.
    pub open spec fn spec_can_cancel_after(self, elapsed_ms: u128) -> bool {
        (self.spec_is_cancellable() || self.spec_timed_out_after(elapsed_ms)) && !self.cancelled
    }

    /// The task marked cancelled; a task already cancelled stays as it is.
    pub open spec fn spec_cancelled(self) -> AsyncTask {
        if !self.cancelled {
            AsyncTask { cancelled: true, status: TaskStatus::Cancelled, ..self }
        } else {
            self
        }
    }

    /// The task after `cancel` when the clock reports `elapsed_ms`.
    pub open spec fn spec_cancel_after(self, elapsed_ms: u128) -> AsyncTask {
        if self.spec_can_cancel_after(elapsed_ms) {
            self.spec_cancelled()
        } else {
            self
        }
    }

    /// The task after the timed-out sweep when the clock reports
    /// `elapsed_ms`: cancelled if it should be, else as it was.
    pub open spec fn spec_swept_after(self, elapsed_ms: u128) -> AsyncTask {
        if self.spec_should_cancel_after(elapsed_ms) {
            self.spec_cancelled()
        } else {
            self
        }
    }

    /// The task after `start`.
    pub open spec fn spec_started(self) -> AsyncTask {
        if self.status == TaskStatus::Pending {
            AsyncTask { status: TaskStatus::Running, ..self }
        } else {
            self
        }
    }

    /// The task after `complete`.
    pub open spec fn spec_completed(self) -> AsyncTask {
        if self.status == TaskStatus::Running {
            AsyncTask { status: TaskStatus::Completed, ..self }
        } else {
            self
        }
    }

    /// Whether the task has run out of time after `elapsed_ms` milliseconds.
    pub open spec fn spec_timed_out_after(self, elapsed_ms: u128) -> bool {
        match self.timeout {
            Some(ms) => elapsed_ms >= ms,
            None => false,
        }
    }

    /// Creates a pending, uncancelled task whose deadline comes from its priority.
    pub fn new(id: u64, priority: TaskPriority) -> (t: Self)
        ensures
            t.id == id,
            t.priority == priority,
            t.status == TaskStatus::Pending,
            t.timeout == priority_timeout(priority),
            !t.cancelled,
            t.wf(),
    {
        let timeout = match priority {
            TaskPriority::Timeout(ms) => Some(ms),
            _ => None,
        };
        AsyncTask {
            id,
            priority,
            status: TaskStatus::Pending,
            created_at: instant_now(),
            timeout,
            cancelled: false,
        }
    }

    /// Whether the task is cancellable (the default priority).
    pub fn is_cancellable(&self) -> (r: bool)
        ensures
            r == self.spec_is_cancellable(),
    {
        match self.priority {
            TaskPriority::Cancellable => true,
            _ => false,
        }
    }

    /// Whether the task is `@nonCancellable`.
    pub fn is_non_cancellable(&self) -> (r: bool)
        ensures
            r == self.spec_is_non_cancellable(),
    {
        match self.priority {
            TaskPriority::NonCancellable => true,
            _ => false,
        }
    }

    /// Whether the task has a `@timeout`.
    pub fn has_timeout(&self) -> (r: bool)
        ensures
            r == self.spec_has_timeout(),
    {
        match self.priority {
            TaskPriority::Timeout(_) => true,
            _ => false,
        }
    }

    /// Whether the task has run out of time after `elapsed_ms` milliseconds.
    pub fn timed_out_after(&self, elapsed_ms: u128) -> (r: bool)
        ensures
            r == self.spec_timed_out_after(elapsed_ms),
    {
        match self.timeout {
            Some(ms) => elapsed_ms >= ms as u128,
            None => false,
        }
    }

    /// Whether the task has run out of time, by the clock: the answer of
    /// `timed_out_after` for the whole milliseconds that the clock reports
    /// since the task was created. A task without a deadline never has; one
    /// with a zero deadline always has.
    pub fn has_timed_out(&self) -> (r: bool)
        ensures
            exists|elapsed_ms: u128| r == #[trigger] self.spec_timed_out_after(elapsed_ms),
    {
        if self.timeout.is_none() {
            assert(!self.spec_timed_out_after(0));
            return false;
        }
        let elapsed = instant_elapsed(&self.created_at);
        let ms = duration_as_millis(&elapsed);
        let r = self.timed_out_after(ms);
        assert(r == self.spec_timed_out_after(ms));
        r
    }

    /// Cancels the task if it is cancellable or has timed out by the clock,
    /// and is not cancelled yet; says whether it did. A deadline task is not
    /// cancelled before its deadline.
    pub fn cancel(&mut self) -> (r: bool)
        ensures
            exists|elapsed_ms: u128|
                r == old(self).spec_can_cancel_after(elapsed_ms) && *final(self) == #[trigger] old(
                    self,
                ).spec_cancel_after(elapsed_ms),
    {
        let ghost before = *self;
        let cancellable = self.is_cancellable();
        let timed_out = if cancellable {
            false
        } else {
            self.has_timed_out()
        };
        let ghost e: u128 = if cancellable {
            0
        } else {
            choose|e: u128| timed_out == #[trigger] before.spec_timed_out_after(e)
        };
        let r = if (cancellable || timed_out) && !self.cancelled {
            self.cancelled = true;
            self.status = TaskStatus::Cancelled;
            true
        } else {
            false
        };
        assert(r == before.spec_can_cancel_after(e) && *self == before.spec_cancel_after(e));
        r
    }

    /// Marks the task cancelled, unless it is already.
    fn mark_cancelled(&mut self)
        ensures
            *final(self) == old(self).spec_cancelled(),
    {
        if !self.cancelled {
            self.cancelled = true;
            self.status = TaskStatus::Cancelled;
        }
    }

    /// Moves a pending task to running.
    pub fn start(&mut self)
        ensures
            *final(self) == old(self).spec_started(),
    {
        if self.status == TaskStatus::Pending {
            self.status = TaskStatus::Running;
        }
    }

    /// Moves a running task to completed.
    pub fn complete(&mut self)
        ensures
            *final(self) == old(self).spec_completed(),
    {
        if self.status == TaskStatus::Running {
            self.status = TaskStatus::Completed;
        }
    }

    /// Whether a deadline task should be cancelled after `elapsed_ms`
    /// milliseconds: it has a deadline, the deadline has passed, and it is not
    /// cancelled yet.
    pub open spec fn spec_should_cancel_after(self, elapsed_ms: u128) -> bool {
        self.spec_has_timeout() && self.spec_timed_out_after(elapsed_ms) && !self.cancelled
    }

    /// Whether a deadline task should be cancelled after `elapsed_ms`
    /// milliseconds: it has a deadline, the deadline has passed, and it is not
    /// cancelled yet.
    pub fn should_cancel_after(&self, elapsed_ms: u128) -> (r: bool)
        ensures
            r == (self.spec_has_timeout() && self.spec_timed_out_after(elapsed_ms)
                && !self.cancelled),
    {
        self.has_timeout() && self.timed_out_after(elapsed_ms) && !self.cancelled
    }

    /// Whether a deadline task should be cancelled now, by the clock: the
    /// answer of `should_cancel_after` for the milliseconds that the clock
    /// reports since the task was created.
    pub fn should_cancel(&self) -> (r: bool)
        ensures
            exists|elapsed_ms: u128| r == #[trigger] self.spec_should_cancel_after(elapsed_ms),
    {
        if self.has_timeout() && !self.cancelled {
            let r = self.has_timed_out();
            proof {
                let ms = choose|elapsed_ms: u128| r == #[trigger] self.spec_timed_out_after(elapsed_ms);
                assert(r == self.spec_should_cancel_after(ms));
            }
            r
        } else {
            assert(!self.spec_should_cancel_after(0));
            false
        }
    }
}


/// Whether the ids in `s` are pairwise distinct.
pub open spec fn ids_unique(s: Seq<AsyncTask>) -> bool {
    forall|i: int, j: int| 0 <= i < j < s.len() ==> s[i].id != s[j].id
}

/// Whether `s` holds a task with id `id`.
pub open spec fn has_task(s: Seq<AsyncTask>, id: u64) -> bool {
    exists|i: int| 0 <= i < s.len() && s[i].id == id
}

/// The task with id `id` in `s`, if there is one.
pub open spec fn lookup(s: Seq<AsyncTask>, id: u64) -> Option<AsyncTask> {
    if has_task(s, id) {
        Some(s[choose|i: int| 0 <= i < s.len() && s[i].id == id])
    } else {
        None
    }
}

/// `s` with `f` applied to the task whose id is `id`.
pub open spec fn update_task(s: Seq<AsyncTask>, id: u64, f: spec_fn(AsyncTask) -> AsyncTask) -> Seq<
    AsyncTask,
> {
    Seq::new(s.len(), |i: int| if s[i].id == id { f(s[i]) } else { s[i] })
}

/// `s` with `f` applied to every task that satisfies `p`.
pub open spec fn update_where(
    s: Seq<AsyncTask>,
    p: spec_fn(AsyncTask) -> bool,
    f: spec_fn(AsyncTask) -> AsyncTask,
) -> Seq<AsyncTask> {
    Seq::new(s.len(), |i: int| if p(s[i]) { f(s[i]) } else { s[i] })
}

/// The ids of the tasks of `s` that satisfy `p`, in order.
pub open spec fn ids_where(s: Seq<AsyncTask>, p: spec_fn(AsyncTask) -> bool) -> Seq<u64>
    decreases s.len(),
{
    if s.len() == 0 {
        Seq::empty()
    } else {
        let rest = ids_where(s.drop_last(), p);
        if p(s.last()) {
            rest.push(s.last().id)
        } else {
            rest
        }
    }
}

/// The tasks of `s` that satisfy `p`, in order.
pub open spec fn tasks_where(s: Seq<AsyncTask>, p: spec_fn(AsyncTask) -> bool) -> Seq<AsyncTask>
    decreases s.len(),
{
    if s.len() == 0 {
        Seq::empty()
    } else {
        let rest = tasks_where(s.drop_last(), p);
        if p(s.last()) {
            rest.push(s.last())
        } else {
            rest
        }
    }
}

/// What `cancel_task` answers, and the tasks it leaves, when the clock
/// reports `elapsed_ms` milliseconds since the task's creation.
pub open spec fn cancel_outcome(s: Seq<AsyncTask>, id: u64, elapsed_ms: u128) -> (bool, Seq<AsyncTask>) {
    (
        lookup(s, id) matches Some(t) && t.spec_can_cancel_after(elapsed_ms),
        update_task(s, id, |t: AsyncTask| t.spec_cancel_after(elapsed_ms)),
    )
}

/// Whether `after` is `before` after the timed-out sweep, for some reading
/// of the clock.
pub open spec fn swept(before: AsyncTask, after: AsyncTask) -> bool {
    exists|elapsed_ms: u128| after == #[trigger] before.spec_swept_after(elapsed_ms)
}

/// The ids of the tasks whose `cancelled` flag went from false to true
/// between `before` and `after`, in order.
pub open spec fn newly_cancelled_ids(before: Seq<AsyncTask>, after: Seq<AsyncTask>) -> Seq<u64>
    decreases before.len(),
{
    if before.len() == 0 || after.len() != before.len() {
        Seq::empty()
    } else {
        let rest = newly_cancelled_ids(before.drop_last(), after.drop_last());
        if !before.last().cancelled && after.last().cancelled {
            rest.push(before.last().id)
        } else {
            rest
        }
    }
}

pub open spec fn pred_active(t: AsyncTask) -> bool {
    t.spec_is_active()
}

pub open spec fn pred_cancellable_active(t: AsyncTask) -> bool {
    t.spec_is_cancellable() && t.spec_is_active()
}

pub open spec fn pred_non_cancellable_active(t: AsyncTask) -> bool {
    t.spec_is_non_cancellable() && t.spec_is_active()
}

pub open spec fn pred_cancellable_uncancelled(t: AsyncTask) -> bool {
    t.spec_is_cancellable() && !t.cancelled
}

pub open spec fn pred_cancellable(t: AsyncTask) -> bool {
    t.spec_is_cancellable()
}

/// The callback registered for `key` in a list of (task id, callback) pairs.
pub open spec fn callback_of(s: Seq<(u64, u64)>, key: u64) -> Option<u64> {
    if exists|i: int| 0 <= i < s.len() && s[i].0 == key {
        Some(s[choose|i: int| 0 <= i < s.len() && s[i].0 == key].1)
    } else {
        None
    }
}

/// Whether the keys of a list of (task id, callback) pairs are distinct.
pub open spec fn keys_unique(s: Seq<(u64, u64)>) -> bool {
    forall|i: int, j: int| 0 <= i < j < s.len() ==> s[i].0 != s[j].0
}

/// The registered callbacks as a map from task id to callback handle.
pub open spec fn callback_map(s: Seq<(u64, u64)>) -> Map<u64, u64> {
    Map::new(|k: u64| callback_of(s, k) is Some, |k: u64| callback_of(s, k)->Some_0)
}

/// A call of a task's JS callback, `callback(error, value)`: on success the
/// error is `null` and the value is the result; on failure the error is the
/// message and the value is `null` (`None` stands for `null`).
pub struct CompletionCall {
    pub callback: u64,
    pub error: Option<String>,
    pub value: Option<String>,
}

pub open spec fn opt_text(o: Option<String>) -> Option<Seq<char>> {
    match o {
        Some(s) => Some(s@),
        None => None,
    }
}

pub open spec fn completion_call_view(c: CompletionCall) -> (u64, Option<Seq<char>>, Option<Seq<char>>) {
    (c.callback, opt_text(c.error), opt_text(c.value))
}

pub open spec fn completion_calls_view(s: Seq<CompletionCall>) -> Seq<(u64, Option<Seq<char>>, Option<Seq<char>>)> {
    s.map_values(|c: CompletionCall| completion_call_view(c))
}

/// The call a completion makes of its callback `cb`.
pub open spec fn call_for(cb: u64, result: Result<String, String>) -> (u64, Option<Seq<char>>, Option<Seq<char>>) {
    match result {
        Ok(v) => (cb, None, Some(v@)),
        Err(e) => (cb, Some(e@), None),
    }
}

/// The calls that the completions make, in order, and the callbacks left:
/// each completion whose task has a callback takes it and calls it once;
/// a completion whose task has none makes no call.
pub open spec fn completion_plan(items: Seq<CompletionItem>, cbs: Map<u64, u64>) -> (
    Seq<(u64, Option<Seq<char>>, Option<Seq<char>>)>,
    Map<u64, u64>,
)
    decreases items.len(),
{
    if items.len() == 0 {
        (Seq::empty(), cbs)
    } else {
        let it = items[0];
        let rest = items.subrange(1, items.len() as int);
        if cbs.contains_key(it.task_id) {
            let (calls, left) = completion_plan(rest, cbs.remove(it.task_id));
            (seq![call_for(cbs[it.task_id], it.result)] + calls, left)
        } else {
            completion_plan(rest, cbs)
        }
    }
}

/// Filtering keeps each kept task's position order, so the kept tasks are
/// an ordered sub-sequence: every kept task occurs in `s`, kept ids stay
/// distinct, and every kept task satisfies `p`.
proof fn lemma_tasks_where_sub(s: Seq<AsyncTask>, p: spec_fn(AsyncTask) -> bool)
    requires
        ids_unique(s),
        forall|i: int| 0 <= i < s.len() ==> (#[trigger] s[i]).wf(),
    ensures
        ids_unique(tasks_where(s, p)),
        forall|i: int| 0 <= i < tasks_where(s, p).len() ==> (#[trigger] tasks_where(s, p)[i]).wf()
            && p(tasks_where(s, p)[i]) && s.contains(tasks_where(s, p)[i]),
    decreases s.len(),
{
    if s.len() > 0 {
        let rest = s.drop_last();
        assert forall|i: int| 0 <= i < rest.len() implies (#[trigger] rest[i]).wf() by {
            assert(rest[i] == s[i]);
        }
        lemma_tasks_where_sub(rest, p);
        let r = tasks_where(rest, p);
        assert forall|i: int| 0 <= i < r.len() implies r[i].id != s.last().id by {
            let k = choose|k: int| 0 <= k < rest.len() && rest[k] == r[i];
            assert(s[k] == r[i]);
        }
        assert forall|i: int| 0 <= i < r.len() implies s.contains(#[trigger] r[i]) by {
            let k = choose|k: int| 0 <= k < rest.len() && rest[k] == r[i];
            assert(s[k] == r[i]);
        }
        assert(s.contains(s.last())) by {
            assert(s[s.len() - 1] == s.last());
        }
    }
}

/// The selections of tasks that the queries of a task table make.
#[derive(Clone, Copy)]
enum TaskFilter {
    Active,
    CancellableActive,
    NonCancellableActive,
}

impl TaskFilter {
    spec fn pred(self) -> spec_fn(AsyncTask) -> bool {
        match self {
            TaskFilter::Active => |t: AsyncTask| pred_active(t),
            TaskFilter::CancellableActive => |t: AsyncTask| pred_cancellable_active(t),
            TaskFilter::NonCancellableActive => |t: AsyncTask| pred_non_cancellable_active(t),
        }
    }

    fn passes(&self, t: &AsyncTask) -> (r: bool)
        ensures
            r == (self.pred())(*t),
    {
        let active = t.status == TaskStatus::Pending || t.status == TaskStatus::Running;
        match self {
            TaskFilter::Active => active,
            TaskFilter::CancellableActive => t.is_cancellable() && active,
            TaskFilter::NonCancellableActive => t.is_non_cancellable() && active,
        }
    }
}

/// Manages async tasks with their cancellation semantics: the tasks, the
/// next id to hand out, the callbacks registered per task, the queue of
/// completions, and whether the owning context is being dropped.
pub struct AsyncTaskManager {
    /// The id the next registered task receives.
    pub next_id: u64,
    /// The tasks, in the order they were registered.
    pub tasks: Vec<AsyncTask>,
    /// (task id, callback handle) pairs.
    pub callbacks: Vec<(u64, u64)>,
    /// Completions not yet drained, oldest first.
    pub completions: Vec<CompletionItem>,
    /// Whether the owning context is being dropped.
    pub context_dropping: bool,
}

impl AsyncTaskManager {
    /// Task ids are distinct, each task is consistent, and callbacks are
    /// registered at most once per task id.
    pub open spec fn wf(&self) -> bool {
        &&& ids_unique(self.tasks@)
        &&& forall|i: int| 0 <= i < self.tasks@.len() ==> (#[trigger] self.tasks@[i]).wf()
        &&& keys_unique(self.callbacks@)
    }

    /// Every task id is below `next_id`, so the next registration is fresh.
    pub open spec fn ids_below_next(&self) -> bool {
        forall|i: int| 0 <= i < self.tasks@.len() ==> (#[trigger] self.tasks@[i]).id < self.next_id
    }

    pub open spec fn spec_task(&self, id: u64) -> Option<AsyncTask> {
        lookup(self.tasks@, id)
    }

    pub open spec fn spec_status(&self, id: u64) -> Option<TaskStatus> {
        match self.spec_task(id) {
            Some(t) => Some(t.status),
            None => None,
        }
    }

    pub open spec fn spec_priority(&self, id: u64) -> Option<TaskPriority> {
        match self.spec_task(id) {
            Some(t) => Some(t.priority),
            None => None,
        }
    }

    pub open spec fn spec_active_count(&self) -> nat {
        ids_where(self.tasks@, |t: AsyncTask| pred_active(t)).len()
    }

    pub open spec fn spec_cancellable_count(&self) -> nat {
        ids_where(self.tasks@, |t: AsyncTask| pred_cancellable_active(t)).len()
    }

    pub open spec fn spec_non_cancellable_count(&self) -> nat {
        ids_where(self.tasks@, |t: AsyncTask| pred_non_cancellable_active(t)).len()
    }

    /// A manager with no task, callback or completion, whose first id is 1.
    pub fn new() -> (t: Self)
        ensures
            t.wf(),
            t.ids_below_next(),
            t.next_id == 1,
            t.tasks@.len() == 0,
            t.callbacks@.len() == 0,
            t.completions@.len() == 0,
            !t.context_dropping,
    {
        AsyncTaskManager {
            next_id: 1,
            tasks: Vec::new(),
            callbacks: Vec::new(),
            completions: Vec::new(),
            context_dropping: false,
        }
    }

    /// The position of the task with id `id`.
    fn find(&self, id: u64) -> (r: Option<usize>)
        requires
            self.wf(),
        ensures
            r matches Some(i) ==> i < self.tasks@.len() && self.tasks@[i as int].id == id
                && self.spec_task(id) == Some(self.tasks@[i as int]),
            r is None ==> !has_task(self.tasks@, id) && self.spec_task(id) is None,
    {
        let n = self.tasks.len();
        let mut i: usize = 0;
        while i < n
            invariant
                n == self.tasks@.len(),
                i <= n,
                self.wf(),
                forall|j: int| 0 <= j < i ==> self.tasks@[j].id != id,
            decreases n - i,
        {
            if self.tasks[i].id == id {
                let ghost k = choose|k: int| 0 <= k < self.tasks@.len() && self.tasks@[k].id == id;
                assert(k == i);
                return Some(i);
            }
            i = i + 1;
        }
        None
    }

    /// Registers a task with the given priority under the next id, and
    /// returns that id. The id counter wraps around like an atomic counter.
    pub fn register_task(&mut self, priority: TaskPriority) -> (id: u64)
        requires
            old(self).wf(),
        ensures
            final(self).wf(),
            id == old(self).next_id,
            final(self).next_id == (if old(self).next_id == u64::MAX { 0 } else { old(self).next_id + 1 }),
            final(self).spec_task(id) matches Some(t) && t.id == id && t.priority == priority
                && t.status == TaskStatus::Pending && !t.cancelled && t.timeout == priority_timeout(
                priority,
            ),
            forall|k: u64| k != id ==> final(self).spec_task(k) == old(self).spec_task(k),
            !has_task(old(self).tasks@, id) ==> final(self).tasks@.drop_last() == old(self).tasks@
                && final(self).tasks@.len() == old(self).tasks@.len() + 1 && final(self).tasks@.last().id == id,
            old(self).ids_below_next() && old(self).next_id < u64::MAX ==> final(self).ids_below_next() && !has_task(old(self).tasks@, id),
            final(self).callbacks@ == old(self).callbacks@,
            final(self).completions@ == old(self).completions@,
            final(self).context_dropping == old(self).context_dropping,
    {
        let id = self.next_id;
        self.next_id = self.next_id.wrapping_add(1);
        let task = AsyncTask::new(id, priority);
        let ghost old_tasks = self.tasks@;
        match self.find(id) {
            Some(i) => {
                self.tasks.set(i, task);
                assert forall|k: u64| k != id implies #[trigger] lookup(self.tasks@, k) == lookup(
                    old_tasks,
                    k,
                ) by {
                    if has_task(old_tasks, k) {
                        let j = choose|j: int| 0 <= j < old_tasks.len() && old_tasks[j].id == k;
                        assert(self.tasks@[j].id == k);
                    }
                    if has_task(self.tasks@, k) {
                        let j = choose|j: int| 0 <= j < self.tasks@.len() && self.tasks@[j].id == k;
                        assert(old_tasks[j].id == k);
                    }
                }
                assert(self.tasks@[i as int].id == id);
            },
            None => {
                self.tasks.push(task);
                assert(self.tasks@.drop_last() =~= old_tasks);
                assert forall|k: u64| k != id implies #[trigger] lookup(self.tasks@, k) == lookup(
                    old_tasks,
                    k,
                ) by {
                    if has_task(old_tasks, k) {
                        let j = choose|j: int| 0 <= j < old_tasks.len() && old_tasks[j].id == k;
                        assert(self.tasks@[j].id == k);
                    }
                    if has_task(self.tasks@, k) {
                        let j = choose|j: int| 0 <= j < self.tasks@.len() && self.tasks@[j].id == k;
                        assert(old_tasks[j].id == k);
                    }
                }
                assert(self.tasks@[old_tasks.len() as int].id == id);
            },
        }
        id
    }

    /// Applies a state change to the task at position `i`.
    fn replace_task(&mut self, i: usize, t: AsyncTask, Ghost(f): Ghost<spec_fn(AsyncTask) -> AsyncTask>)
        requires
            old(self).wf(),
            i < old(self).tasks@.len(),
            t == f(old(self).tasks@[i as int]),
            t.id == old(self).tasks@[i as int].id,
            t.wf(),
        ensures
            final(self).wf(),
            final(self).tasks@ == update_task(old(self).tasks@, t.id, f),
            final(self).next_id == old(self).next_id,
            final(self).callbacks@ == old(self).callbacks@,
            final(self).completions@ == old(self).completions@,
            final(self).context_dropping == old(self).context_dropping,
    {
        let ghost old_tasks = self.tasks@;
        self.tasks.set(i, t);
        assert(self.tasks@ =~= update_task(old_tasks, t.id, f));
    }

    /// Moves the task `task_id` from pending to running; no effect otherwise.
    pub fn start_task(&mut self, task_id: u64)
        requires
            old(self).wf(),
        ensures
            final(self).wf(),
            final(self).tasks@ == update_task(old(self).tasks@, task_id, |t: AsyncTask| t.spec_started()),
            final(self).next_id == old(self).next_id,
            final(self).callbacks@ == old(self).callbacks@,
            final(self).completions@ == old(self).completions@,
            final(self).context_dropping == old(self).context_dropping,
    {
        match self.find(task_id) {
            Some(i) => {
                let mut t = self.tasks[i];
                t.start();
                self.replace_task(i, t, Ghost(|t: AsyncTask| t.spec_started()));
            },
            None => {
                assert(self.tasks@ =~= update_task(self.tasks@, task_id, |t: AsyncTask| t.spec_started()));
            },
        }
    }

    /// Moves the task `task_id` from running to completed; no effect otherwise.
    pub fn complete_task(&mut self, task_id: u64)
        requires
            old(self).wf(),
        ensures
            final(self).wf(),
            final(self).tasks@ == update_task(old(self).tasks@, task_id, |t: AsyncTask| t.spec_completed()),
            final(self).next_id == old(self).next_id,
            final(self).callbacks@ == old(self).callbacks@,
            final(self).completions@ == old(self).completions@,
            final(self).context_dropping == old(self).context_dropping,
    {
        match self.find(task_id) {
            Some(i) => {
                let mut t = self.tasks[i];
                t.complete();
                self.replace_task(i, t, Ghost(|t: AsyncTask| t.spec_completed()));
            },
            None => {
                assert(self.tasks@ =~= update_task(self.tasks@, task_id, |t: AsyncTask| t.spec_completed()));
            },
        }
    }

    /// Cancels the task `task_id` if it exists, is cancellable or has timed
    /// out by the clock, and is not cancelled yet; says whether it did.
    pub fn cancel_task(&mut self, task_id: u64) -> (r: bool)
        requires
            old(self).wf(),
        ensures
            final(self).wf(),
            exists|elapsed_ms: u128|
                (r, final(self).tasks@) == #[trigger] cancel_outcome(old(self).tasks@, task_id, elapsed_ms),
            final(self).next_id == old(self).next_id,
            final(self).callbacks@ == old(self).callbacks@,
            final(self).completions@ == old(self).completions@,
            final(self).context_dropping == old(self).context_dropping,
    {
        let ghost old_tasks = self.tasks@;
        match self.find(task_id) {
            Some(i) => {
                let mut t = self.tasks[i];
                let ghost old_t = t;
                let r = t.cancel();
                let ghost e = choose|e: u128|
                    r == old_t.spec_can_cancel_after(e) && t == #[trigger] old_t.spec_cancel_after(e);
                self.replace_task(i, t, Ghost(|x: AsyncTask| x.spec_cancel_after(e)));
                assert((r, self.tasks@) == cancel_outcome(old_tasks, task_id, e));
                r
            },
            None => {
                assert(self.tasks@ =~= update_task(self.tasks@, task_id, |t: AsyncTask| t.spec_cancel_after(0)));
                assert((false, self.tasks@) == cancel_outcome(old_tasks, task_id, 0));
                false
            },
        }
    }

    /// The status of the task `task_id`, if it exists.
    pub fn get_task_status(&self, task_id: u64) -> (r: Option<TaskStatus>)
        requires
            self.wf(),
        ensures
            r == self.spec_status(task_id),
    {
        match self.find(task_id) {
            Some(i) => Some(self.tasks[i].status),
            None => None,
        }
    }

    /// The priority of the task `task_id`, if it exists.
    pub fn get_task_priority(&self, task_id: u64) -> (r: Option<TaskPriority>)
        requires
            self.wf(),
        ensures
            r == self.spec_priority(task_id),
    {
        match self.find(task_id) {
            Some(i) => Some(self.tasks[i].priority),
            None => None,
        }
    }

    /// Whether the task `task_id` exists and is cancellable.
    pub fn is_task_cancellable(&self, task_id: u64) -> (r: bool)
        requires
            self.wf(),
        ensures
            r == (self.spec_task(task_id) matches Some(t) && t.spec_is_cancellable()),
    {
        match self.find(task_id) {
            Some(i) => self.tasks[i].is_cancellable(),
            None => false,
        }
    }

    /// Whether the task `task_id` exists and is non-cancellable.
    pub fn is_task_non_cancellable(&self, task_id: u64) -> (r: bool)
        requires
            self.wf(),
        ensures
            r == (self.spec_task(task_id) matches Some(t) && t.spec_is_non_cancellable()),
    {
        match self.find(task_id) {
            Some(i) => self.tasks[i].is_non_cancellable(),
            None => false,
        }
    }

    /// The ids of the tasks that pass `filter`, in registration order.
    fn ids_passing(&self, filter: TaskFilter) -> (r: Vec<u64>)
        requires
            self.wf(),
        ensures
            r@ == ids_where(self.tasks@, filter.pred()),
    {
        let n = self.tasks.len();
        let mut res: Vec<u64> = Vec::new();
        let mut i: usize = 0;
        while i < n
            invariant
                n == self.tasks@.len(),
                i <= n,
                res@ == ids_where(self.tasks@.take(i as int), filter.pred()),
            decreases n - i,
        {
            let t = self.tasks[i];
            assert(self.tasks@.take(i + 1).drop_last() =~= self.tasks@.take(i as int));
            assert(self.tasks@.take(i + 1).last() == t);
            if filter.passes(&t) {
                res.push(t.id);
            }
            i = i + 1;
        }
        assert(self.tasks@.take(n as int) =~= self.tasks@);
        res
    }

    /// The ids of the active (pending or running) tasks.
    pub fn get_active_task_ids(&self) -> (r: Vec<u64>)
        requires
            self.wf(),
        ensures
            r@ == ids_where(self.tasks@, |t: AsyncTask| pred_active(t)),
    {
        self.ids_passing(TaskFilter::Active)
    }

    /// The ids of the active cancellable tasks.
    pub fn get_cancellable_task_ids(&self) -> (r: Vec<u64>)
        requires
            self.wf(),
        ensures
            r@ == ids_where(self.tasks@, |t: AsyncTask| pred_cancellable_active(t)),
    {
        self.ids_passing(TaskFilter::CancellableActive)
    }

    /// The ids of the active non-cancellable tasks.
    pub fn get_non_cancellable_task_ids(&self) -> (r: Vec<u64>)
        requires
            self.wf(),
        ensures
            r@ == ids_where(self.tasks@, |t: AsyncTask| pred_non_cancellable_active(t)),
    {
        self.ids_passing(TaskFilter::NonCancellableActive)
    }

    /// The number of active tasks.
    pub fn active_task_count(&self) -> (r: usize)
        requires
            self.wf(),
        ensures
            r == self.spec_active_count(),
    {
        self.ids_passing(TaskFilter::Active).len()
    }

    /// The number of active cancellable tasks.
    pub fn cancellable_task_count(&self) -> (r: usize)
        requires
            self.wf(),
        ensures
            r == self.spec_cancellable_count(),
    {
        self.ids_passing(TaskFilter::CancellableActive).len()
    }

    /// The number of active non-cancellable tasks.
    pub fn non_cancellable_task_count(&self) -> (r: usize)
        requires
            self.wf(),
        ensures
            r == self.spec_non_cancellable_count(),
    {
        self.ids_passing(TaskFilter::NonCancellableActive).len()
    }

    /// Cancels every cancellable task that is not cancelled yet, and returns
    /// their ids in registration order. Non-cancellable and deadline tasks are
    /// left as they are.
    pub fn cancel_all_cancellable(&mut self) -> (r: Vec<u64>)
        requires
            old(self).wf(),
        ensures
            final(self).wf(),
            r@ == ids_where(old(self).tasks@, |t: AsyncTask| pred_cancellable_uncancelled(t)),
            final(self).tasks@ == update_where(
                old(self).tasks@,
                |t: AsyncTask| pred_cancellable(t),
                |t: AsyncTask| t.spec_cancelled(),
            ),
            final(self).next_id == old(self).next_id,
            final(self).callbacks@ == old(self).callbacks@,
            final(self).completions@ == old(self).completions@,
            final(self).context_dropping == old(self).context_dropping,
    {
        let ghost old_tasks = self.tasks@;
        let ghost p = |t: AsyncTask| pred_cancellable(t);
        let ghost f = |t: AsyncTask| t.spec_cancelled();
        let n = self.tasks.len();
        let mut res: Vec<u64> = Vec::new();
        let mut i: usize = 0;
        while i < n
            invariant
                n == old_tasks.len(),
                n == self.tasks@.len(),
                i <= n,
                ids_unique(old_tasks),
                forall|j: int| 0 <= j < n ==> (#[trigger] old_tasks[j]).wf(),
                forall|j: int|
                    0 <= j < n ==> #[trigger] self.tasks@[j] == (if j < i {
                        if pred_cancellable(old_tasks[j]) {
                            old_tasks[j].spec_cancelled()
                        } else {
                            old_tasks[j]
                        }
                    } else {
                        old_tasks[j]
                    }),
                res@ == ids_where(old_tasks.take(i as int), |t: AsyncTask| pred_cancellable_uncancelled(t)),
                keys_unique(self.callbacks@),
                self.next_id == old(self).next_id,
                self.callbacks@ == old(self).callbacks@,
                self.completions@ == old(self).completions@,
                self.context_dropping == old(self).context_dropping,
            decreases n - i,
        {
            let mut t = self.tasks[i];
            assert(self.tasks@[i as int] == old_tasks[i as int]);
            assert(old_tasks.take(i + 1).drop_last() =~= old_tasks.take(i as int));
            assert(old_tasks.take(i + 1).last() == t);
            if t.is_cancellable() {
                let was = !t.cancelled;
                t.mark_cancelled();
                self.tasks.set(i, t);
                assert(self.tasks@[i as int] == old_tasks[i as int].spec_cancelled());
                if was {
                    res.push(t.id);
                }
            }
            i = i + 1;
        }
        assert(old_tasks.take(n as int) =~= old_tasks);
        assert(self.tasks@ =~= update_where(old_tasks, p, f));
        res
    }

    /// Cancels every deadline task whose deadline has passed, by the clock,
    /// and returns their ids in registration order. Each task is swept at
    /// some reading of the clock: a deadline task not cancelled yet whose
    /// deadline has passed at that reading is cancelled, every other task is
    /// left as it is (so a zero deadline is always cancelled).
    pub fn cancel_timed_out_tasks(&mut self) -> (r: Vec<u64>)
        requires
            old(self).wf(),
        ensures
            final(self).wf(),
            final(self).tasks@.len() == old(self).tasks@.len(),
            forall|j: int|
                0 <= j < old(self).tasks@.len() ==> swept(#[trigger] old(self).tasks@[j], final(self).tasks@[j]),
            r@ == newly_cancelled_ids(old(self).tasks@, final(self).tasks@),
            final(self).next_id == old(self).next_id,
            final(self).callbacks@ == old(self).callbacks@,
            final(self).completions@ == old(self).completions@,
            final(self).context_dropping == old(self).context_dropping,
    {
        let ghost old_tasks = self.tasks@;
        let n = self.tasks.len();
        let mut res: Vec<u64> = Vec::new();
        let mut i: usize = 0;
        while i < n
            invariant
                n == old_tasks.len(),
                n == self.tasks@.len(),
                i <= n,
                ids_unique(old_tasks),
                forall|j: int| 0 <= j < n ==> (#[trigger] old_tasks[j]).wf(),
                forall|j: int|
                    i <= j < n ==> #[trigger] self.tasks@[j] == old_tasks[j],
                forall|j: int| 0 <= j < i ==> swept(#[trigger] old_tasks[j], self.tasks@[j]),
                res@ == newly_cancelled_ids(old_tasks.take(i as int), self.tasks@.take(i as int)),
                keys_unique(self.callbacks@),
                self.next_id == old(self).next_id,
                self.callbacks@ == old(self).callbacks@,
                self.completions@ == old(self).completions@,
                self.context_dropping == old(self).context_dropping,
            decreases n - i,
        {
            let mut t = self.tasks[i];
            let ghost pre = self.tasks@;
            assert(old_tasks.take(i + 1).drop_last() =~= old_tasks.take(i as int));
            assert(old_tasks.take(i + 1).last() == t);
            let ghost old_t = t;
            let sc = t.should_cancel();
            let ghost e = choose|e: u128| sc == #[trigger] old_t.spec_should_cancel_after(e);
            if sc {
                t.mark_cancelled();
                self.tasks.set(i, t);
                res.push(t.id);
            }
            assert(self.tasks@[i as int] == old_t.spec_swept_after(e));
            assert(swept(old_tasks[i as int], self.tasks@[i as int]));
            assert(self.tasks@.take(i + 1).drop_last() =~= self.tasks@.take(i as int));
            assert(self.tasks@.take(i as int) =~= pre.take(i as int));
            i = i + 1;
        }
        assert(old_tasks.take(n as int) =~= old_tasks);
        assert(self.tasks@.take(n as int) =~= self.tasks@);
        assert forall|a: int, b: int| 0 <= a < b < self.tasks@.len() implies self.tasks@[a].id
            != self.tasks@[b].id by {
            assert(old_tasks[a].id != old_tasks[b].id);
        }
        assert forall|j: int| 0 <= j < self.tasks@.len() implies (#[trigger] self.tasks@[j]).wf() by {
            assert(old_tasks[j].wf());
        }
        res
    }

    /// Removes the tasks that are no longer active (completed, cancelled or
    /// timed out), keeping the order of the rest.
    pub fn cleanup_finished_tasks(&mut self)
        requires
            old(self).wf(),
        ensures
            final(self).wf(),
            final(self).tasks@ == tasks_where(old(self).tasks@, |t: AsyncTask| pred_active(t)),
            final(self).next_id == old(self).next_id,
            final(self).callbacks@ == old(self).callbacks@,
            final(self).completions@ == old(self).completions@,
            final(self).context_dropping == old(self).context_dropping,
    {
        let n = self.tasks.len();
        let mut kept: Vec<AsyncTask> = Vec::new();
        let mut i: usize = 0;
        while i < n
            invariant
                n == self.tasks@.len(),
                i <= n,
                kept@ == tasks_where(self.tasks@.take(i as int), |t: AsyncTask| pred_active(t)),
            decreases n - i,
        {
            let t = self.tasks[i];
            assert(self.tasks@.take(i + 1).drop_last() =~= self.tasks@.take(i as int));
            assert(self.tasks@.take(i + 1).last() == t);
            if t.status == TaskStatus::Pending || t.status == TaskStatus::Running {
                kept.push(t);
            }
            i = i + 1;
        }
        assert(self.tasks@.take(n as int) =~= self.tasks@);
        proof {
            lemma_tasks_where_sub(self.tasks@, |t: AsyncTask| pred_active(t));
        }
        self.tasks = kept;
    }

    /// Appends a completion to the queue.
    pub fn push_completion(&mut self, item: CompletionItem)
        requires
            old(self).wf(),
        ensures
            final(self).wf(),
            final(self).completions@ == old(self).completions@.push(item),
            final(self).tasks@ == old(self).tasks@,
            final(self).next_id == old(self).next_id,
            final(self).callbacks@ == old(self).callbacks@,
            final(self).context_dropping == old(self).context_dropping,
    {
        self.completions.push(item);
    }

    /// Takes every queued completion, oldest first, leaving the queue empty.
    pub fn drain_completions(&mut self) -> (r: Vec<CompletionItem>)
        requires
            old(self).wf(),
        ensures
            final(self).wf(),
            r@ == old(self).completions@,
            final(self).completions@.len() == 0,
            final(self).tasks@ == old(self).tasks@,
            final(self).next_id == old(self).next_id,
            final(self).callbacks@ == old(self).callbacks@,
            final(self).context_dropping == old(self).context_dropping,
    {
        let mut out: Vec<CompletionItem> = Vec::new();
        std::mem::swap(&mut out, &mut self.completions);
        out
    }

    /// Whether any completion is queued.
    pub fn has_completions(&self) -> (r: bool)
        ensures
            r == (self.completions@.len() > 0),
    {
        self.completions.len() > 0
    }

    /// The position of the callback registered for `task_id`.
    fn find_callback(&self, task_id: u64) -> (r: Option<usize>)
        requires
            keys_unique(self.callbacks@),
        ensures
            r matches Some(i) ==> i < self.callbacks@.len() && self.callbacks@[i as int].0 == task_id
                && callback_of(self.callbacks@, task_id) == Some(self.callbacks@[i as int].1),
            r is None ==> callback_of(self.callbacks@, task_id) is None,
    {
        let n = self.callbacks.len();
        let mut i: usize = 0;
        while i < n
            invariant
                n == self.callbacks@.len(),
                i <= n,
                keys_unique(self.callbacks@),
                forall|j: int| 0 <= j < i ==> self.callbacks@[j].0 != task_id,
            decreases n - i,
        {
            if self.callbacks[i].0 == task_id {
                let ghost k = choose|k: int| 0 <= k < self.callbacks@.len() && self.callbacks@[k].0 == task_id;
                assert(k == i);
                return Some(i);
            }
            i = i + 1;
        }
        None
    }

    /// Registers `callback` as the callback of `task_id`, replacing any
    /// earlier one.
    pub fn register_callback(&mut self, task_id: u64, callback: u64)
        requires
            old(self).wf(),
        ensures
            final(self).wf(),
            callback_of(final(self).callbacks@, task_id) == Some(callback),
            forall|k: u64| k != task_id ==> #[trigger] callback_of(final(self).callbacks@, k)
                == callback_of(old(self).callbacks@, k),
            final(self).tasks@ == old(self).tasks@,
            final(self).next_id == old(self).next_id,
            final(self).completions@ == old(self).completions@,
            final(self).context_dropping == old(self).context_dropping,
    {
        let ghost before = self.callbacks@;
        match self.find_callback(task_id) {
            Some(i) => {
                self.callbacks.set(i, (task_id, callback));
                assert(self.callbacks@[i as int].0 == task_id);
            },
            None => {
                self.callbacks.push((task_id, callback));
                assert(self.callbacks@[before.len() as int].0 == task_id);
            },
        }
        assert forall|k: u64| k != task_id implies #[trigger] callback_of(self.callbacks@, k)
            == callback_of(before, k) by {
            if exists|j: int| 0 <= j < before.len() && before[j].0 == k {
                let j = choose|j: int| 0 <= j < before.len() && before[j].0 == k;
                assert(self.callbacks@[j].0 == k);
            }
            if exists|j: int| 0 <= j < self.callbacks@.len() && self.callbacks@[j].0 == k {
                let j = choose|j: int| 0 <= j < self.callbacks@.len() && self.callbacks@[j].0 == k;
                assert(before[j].0 == k);
            }
        }
    }

    /// Removes and returns the callback registered for `task_id`.
    pub fn take_callback(&mut self, task_id: u64) -> (r: Option<u64>)
        requires
            old(self).wf(),
        ensures
            final(self).wf(),
            r == callback_of(old(self).callbacks@, task_id),
            callback_of(final(self).callbacks@, task_id) is None,
            forall|k: u64| k != task_id ==> #[trigger] callback_of(final(self).callbacks@, k)
                == callback_of(old(self).callbacks@, k),
            final(self).tasks@ == old(self).tasks@,
            final(self).next_id == old(self).next_id,
            final(self).completions@ == old(self).completions@,
            final(self).context_dropping == old(self).context_dropping,
    {
        let ghost before = self.callbacks@;
        match self.find_callback(task_id) {
            Some(i) => {
                let (_, cb) = self.callbacks.remove(i);
                assert forall|j: int| 0 <= j < self.callbacks@.len() implies self.callbacks@[j].0
                    != task_id by {
                    if j < i {
                        assert(self.callbacks@[j] == before[j]);
                    } else {
                        assert(self.callbacks@[j] == before[j + 1]);
                    }
                }
                assert forall|k: u64| k != task_id implies #[trigger] callback_of(self.callbacks@, k)
                    == callback_of(before, k) by {
                    if exists|j: int| 0 <= j < before.len() && before[j].0 == k {
                        let j = choose|j: int| 0 <= j < before.len() && before[j].0 == k;
                        if j < i {
                            assert(self.callbacks@[j].0 == k);
                        } else {
                            assert(self.callbacks@[j - 1].0 == k);
                        }
                    }
                    if exists|j: int| 0 <= j < self.callbacks@.len() && self.callbacks@[j].0 == k {
                        let j = choose|j: int| 0 <= j < self.callbacks@.len() && self.callbacks@[j].0 == k;
                        if j < i {
                            assert(before[j].0 == k);
                        } else {
                            assert(before[j + 1].0 == k);
                        }
                    }
                }
                Some(cb)
            },
            None => None,
        }
    }

    /// Drains the completions and plans the callback calls they make, in
    /// completion order; each callback is taken as it is called.
    pub fn take_completion_calls(&mut self) -> (r: Vec<CompletionCall>)
        requires
            old(self).wf(),
        ensures
            final(self).wf(),
            completion_calls_view(r@) == completion_plan(old(self).completions@, callback_map(old(self).callbacks@)).0,
            callback_map(final(self).callbacks@) == completion_plan(
                old(self).completions@,
                callback_map(old(self).callbacks@),
            ).1,
            final(self).completions@.len() == 0,
            final(self).tasks@ == old(self).tasks@,
            final(self).next_id == old(self).next_id,
            final(self).context_dropping == old(self).context_dropping,
    {
        let mut items = self.drain_completions();
        let ghost all = items@;
        let ghost cbs0 = callback_map(self.callbacks@);
        let ghost mut k: int = 0;
        let mut calls: Vec<CompletionCall> = Vec::new();
        assert(all.skip(0) =~= all);
        assert(completion_calls_view(calls@) =~= Seq::empty());
        while items.len() > 0
            invariant
                self.wf(),
                0 <= k <= all.len(),
                items@.len() == all.len() - k,
                items@ == all.skip(k),
                self.completions@.len() == 0,
                self.tasks@ == old(self).tasks@,
                self.next_id == old(self).next_id,
                self.context_dropping == old(self).context_dropping,
                all == old(self).completions@,
                cbs0 == callback_map(old(self).callbacks@),
                completion_plan(all, cbs0) == (
                    completion_calls_view(calls@) + completion_plan(items@, callback_map(self.callbacks@)).0,
                    completion_plan(items@, callback_map(self.callbacks@)).1,
                ),
            decreases items@.len(),
        {
            let ghost before_items = items@;
            let ghost before_calls = completion_calls_view(calls@);
            let ghost before_map = callback_map(self.callbacks@);
            let item = items.remove(0);
            proof {
                assert(before_items[0] == item);
                assert(before_items.subrange(1, before_items.len() as int) =~= items@);
                assert(items@ =~= all.skip(k + 1));
            }
            let cb = self.take_callback(item.task_id);
            let ghost after_map = callback_map(self.callbacks@);
            proof {
                assert(after_map =~= before_map.remove(item.task_id));
            }
            match cb {
                Some(c) => {
                    let call = match item.result {
                        Ok(v) => CompletionCall { callback: c, error: None, value: Some(v) },
                        Err(e) => CompletionCall { callback: c, error: Some(e), value: None },
                    };
                    let ghost cv = completion_call_view(call);
                    calls.push(call);
                    proof {
                        assert(before_map.contains_key(item.task_id));
                        assert(before_map[item.task_id] == c);
                        assert(cv == call_for(c, item.result));
                        assert(completion_calls_view(calls@) =~= before_calls.push(cv));
                        assert(before_calls.push(cv) + completion_plan(items@, after_map).0 =~= before_calls + (
                        seq![cv] + completion_plan(items@, after_map).0));
                    }
                },
                None => {
                    proof {
                        assert(!before_map.contains_key(item.task_id));
                        assert(after_map =~= before_map);
                    }
                },
            }
            proof {
                k = k + 1;
            }
        }
        assert(completion_calls_view(calls@) + Seq::<(u64, Option<Seq<char>>, Option<Seq<char>>)>::empty()
            =~= completion_calls_view(calls@));
        calls
    }

    /// Whether the task exists and should be cancelled after `elapsed_ms`
    /// milliseconds.
    pub open spec fn spec_task_should_cancel_after(self, task_id: u64, elapsed_ms: u128) -> bool {
        match self.spec_task(task_id) {
            Some(t) => t.spec_should_cancel_after(elapsed_ms),
            None => false,
        }
    }

    /// Whether the task exists and, being a deadline task not cancelled yet,
    /// has passed its deadline by the clock.
    pub fn task_should_cancel(&self, task_id: u64) -> (r: bool)
        requires
            self.wf(),
        ensures
            exists|elapsed_ms: u128| r == #[trigger] self.spec_task_should_cancel_after(task_id, elapsed_ms),
    {
        match self.find(task_id) {
            Some(i) => {
                let r = self.tasks[i].should_cancel();
                proof {
                    let ms = choose|elapsed_ms: u128| r == #[trigger] self.tasks@[i as int].spec_should_cancel_after(elapsed_ms);
                    assert(r == self.spec_task_should_cancel_after(task_id, ms));
                }
                r
            },
            None => {
                assert(!self.spec_task_should_cancel_after(task_id, 0));
                false
            },
        }
    }

    /// Records that the owning context is being dropped.
    pub fn mark_context_dropping(&mut self)
        requires
            old(self).wf(),
        ensures
            final(self).wf(),
            final(self).context_dropping,
            final(self).tasks@ == old(self).tasks@,
            final(self).next_id == old(self).next_id,
            final(self).callbacks@ == old(self).callbacks@,
            final(self).completions@ == old(self).completions@,
    {
        self.context_dropping = true;
    }

    /// Whether the owning context is being dropped.
    pub fn is_context_dropping(&self) -> (r: bool)
        ensures
            r == self.context_dropping,
    {
        self.context_dropping
    }
}


/// The lock predicate of an `SharedTaskManager`: the shared table is well formed.
pub struct TableWellFormed;

impl RwLockPredicate<AsyncTaskManager> for TableWellFormed {
    open spec fn inv(self, v: AsyncTaskManager) -> bool {
        v.wf()
    }
}

/// An `AsyncTaskManager` shared between the JS thread and worker threads
/// behind a lock, so every method takes `&self`. Since other threads may
/// change the manager between two calls, each result is stated of the
/// manager as the call found it.
pub struct SharedTaskManager {
    state: RwLock<AsyncTaskManager, TableWellFormed>,
}

impl SharedTaskManager {
    /// A manager with no tasks, no callbacks and no completions.
    pub fn new() -> (m: Self) {
        SharedTaskManager { state: RwLock::new(AsyncTaskManager::new(), Ghost(TableWellFormed)) }
    }

    /// Appends a completion to the queue (from any thread).
    pub fn push_completion(&self, item: CompletionItem) {
        let (mut t, h) = self.state.acquire_write();
        t.push_completion(item);
        h.release_write(t);
    }

    /// Takes every queued completion, oldest first (on the JS thread).
    pub fn drain_completions(&self) -> (r: Vec<CompletionItem>)
        ensures
            exists|s: AsyncTaskManager| s.wf() && r@ == #[trigger] s.completions@,
    {
        let (mut t, h) = self.state.acquire_write();
        let ghost before = t;
        let r = t.drain_completions();
        h.release_write(t);
        assert(before.wf() && r@ == before.completions@);
        r
    }

    /// Whether any completion is queued.
    pub fn has_completions(&self) -> (r: bool)
        ensures
            exists|s: AsyncTaskManager| s.wf() && r == (#[trigger] s.completions@.len() > 0),
    {
        let h = self.state.acquire_read();
        let t = h.borrow();
        let r = t.has_completions();
        assert(t.wf() && r == (t.completions@.len() > 0));
        h.release_read();
        r
    }

    /// Registers a task with the given priority and returns its id.
    pub fn register_task(&self, priority: TaskPriority) -> (id: u64)
        ensures
            exists|s: AsyncTaskManager| s.wf() && id == #[trigger] s.next_id,
    {
        let (mut t, h) = self.state.acquire_write();
        let ghost before = t;
        let id = t.register_task(priority);
        h.release_write(t);
        assert(before.wf() && id == before.next_id);
        id
    }

    /// Moves the task from pending to running.
    pub fn start_task(&self, task_id: u64) {
        let (mut t, h) = self.state.acquire_write();
        t.start_task(task_id);
        h.release_write(t);
    }

    /// Moves the task from running to completed.
    pub fn complete_task(&self, task_id: u64) {
        let (mut t, h) = self.state.acquire_write();
        t.complete_task(task_id);
        h.release_write(t);
    }

    /// Cancels the task if it is cancellable or has timed out by the clock,
    /// and is not cancelled yet; says whether it did.
    pub fn cancel_task(&self, task_id: u64) -> (r: bool)
        ensures
            exists|s: AsyncTaskManager, elapsed_ms: u128|
                s.wf() && r == (#[trigger] cancel_outcome(s.tasks@, task_id, elapsed_ms)).0,
    {
        let (mut t, h) = self.state.acquire_write();
        let ghost before = t;
        let r = t.cancel_task(task_id);
        proof {
            let e = choose|e: u128| (r, t.tasks@) == #[trigger] cancel_outcome(before.tasks@, task_id, e);
            assert(before.wf() && r == cancel_outcome(before.tasks@, task_id, e).0);
        }
        h.release_write(t);
        r
    }

    /// The status of the task, if it exists.
    pub fn get_task_status(&self, task_id: u64) -> (r: Option<TaskStatus>)
        ensures
            exists|s: AsyncTaskManager| s.wf() && r == #[trigger] s.spec_status(task_id),
    {
        let h = self.state.acquire_read();
        let t = h.borrow();
        let r = t.get_task_status(task_id);
        assert(t.wf() && r == t.spec_status(task_id));
        h.release_read();
        r
    }

    /// The priority of the task, if it exists.
    pub fn get_task_priority(&self, task_id: u64) -> (r: Option<TaskPriority>)
        ensures
            exists|s: AsyncTaskManager| s.wf() && r == #[trigger] s.spec_priority(task_id),
    {
        let h = self.state.acquire_read();
        let t = h.borrow();
        let r = t.get_task_priority(task_id);
        assert(t.wf() && r == t.spec_priority(task_id));
        h.release_read();
        r
    }

    /// Whether the task exists and is cancellable.
    pub fn is_task_cancellable(&self, task_id: u64) -> (r: bool)
        ensures
            exists|s: AsyncTaskManager|
                s.wf() && r == (#[trigger] s.spec_task(task_id) matches Some(t) && t.spec_is_cancellable()),
    {
        let h = self.state.acquire_read();
        let t = h.borrow();
        let r = t.is_task_cancellable(task_id);
        assert(t.wf() && r == (t.spec_task(task_id) matches Some(x) && x.spec_is_cancellable()));
        h.release_read();
        r
    }

    /// Whether the task exists and is non-cancellable.
    pub fn is_task_non_cancellable(&self, task_id: u64) -> (r: bool)
        ensures
            exists|s: AsyncTaskManager|
                s.wf() && r == (#[trigger] s.spec_task(task_id) matches Some(t)
                    && t.spec_is_non_cancellable()),
    {
        let h = self.state.acquire_read();
        let t = h.borrow();
        let r = t.is_task_non_cancellable(task_id);
        assert(t.wf() && r == (t.spec_task(task_id) matches Some(x) && x.spec_is_non_cancellable()));
        h.release_read();
        r
    }

    /// The ids of the active tasks.
    pub fn get_active_task_ids(&self) -> (r: Vec<u64>)
        ensures
            exists|s: AsyncTaskManager|
                s.wf() && r@ == ids_where(#[trigger] s.tasks@, |t: AsyncTask| pred_active(t)),
    {
        let h = self.state.acquire_read();
        let t = h.borrow();
        let r = t.get_active_task_ids();
        assert(t.wf() && r@ == ids_where(t.tasks@, |x: AsyncTask| pred_active(x)));
        h.release_read();
        r
    }

    /// The ids of the active cancellable tasks.
    pub fn get_cancellable_task_ids(&self) -> (r: Vec<u64>)
        ensures
            exists|s: AsyncTaskManager|
                s.wf() && r@ == ids_where(#[trigger] s.tasks@, |t: AsyncTask| pred_cancellable_active(t)),
    {
        let h = self.state.acquire_read();
        let t = h.borrow();
        let r = t.get_cancellable_task_ids();
        assert(t.wf() && r@ == ids_where(t.tasks@, |x: AsyncTask| pred_cancellable_active(x)));
        h.release_read();
        r
    }

    /// The ids of the active non-cancellable tasks.
    pub fn get_non_cancellable_task_ids(&self) -> (r: Vec<u64>)
        ensures
            exists|s: AsyncTaskManager|
                s.wf() && r@ == ids_where(
                    #[trigger] s.tasks@,
                    |t: AsyncTask| pred_non_cancellable_active(t),
                ),
    {
        let h = self.state.acquire_read();
        let t = h.borrow();
        let r = t.get_non_cancellable_task_ids();
        assert(t.wf() && r@ == ids_where(t.tasks@, |x: AsyncTask| pred_non_cancellable_active(x)));
        h.release_read();
        r
    }

    /// Cancels every cancellable task that is not cancelled yet; returns their ids.
    /// Called when the owning context is dropped; other tasks keep running.
    pub fn cancel_all_cancellable(&self) -> (r: Vec<u64>)
        ensures
            exists|s: AsyncTaskManager|
                s.wf() && r@ == ids_where(
                    #[trigger] s.tasks@,
                    |t: AsyncTask| pred_cancellable_uncancelled(t),
                ),
    {
        let (mut t, h) = self.state.acquire_write();
        let ghost before = t;
        let r = t.cancel_all_cancellable();
        h.release_write(t);
        assert(before.wf() && r@ == ids_where(before.tasks@, |x: AsyncTask| pred_cancellable_uncancelled(x)));
        r
    }

    /// Cancels the deadline tasks whose deadline has passed; returns their
    /// ids, those of the tasks that this call cancelled, in registration order.
    pub fn cancel_timed_out_tasks(&self) -> (r: Vec<u64>)
        ensures
            exists|before: AsyncTaskManager, after: AsyncTaskManager|
                before.wf() && after.wf() && r@ == #[trigger] newly_cancelled_ids(before.tasks@, after.tasks@)
                    && after.tasks@.len() == before.tasks@.len(),
    {
        let (mut t, h) = self.state.acquire_write();
        let ghost before = t;
        let r = t.cancel_timed_out_tasks();
        let ghost after = t;
        h.release_write(t);
        assert(before.wf() && after.wf() && r@ == newly_cancelled_ids(before.tasks@, after.tasks@)
            && after.tasks@.len() == before.tasks@.len());
        r
    }

    /// Whether the task exists and, being a deadline task not cancelled yet,
    /// has passed its deadline by the clock.
    pub fn task_should_cancel(&self, task_id: u64) -> (r: bool)
        ensures
            exists|s: AsyncTaskManager, elapsed_ms: u128|
                s.wf() && r == #[trigger] s.spec_task_should_cancel_after(task_id, elapsed_ms),
    {
        let h = self.state.acquire_read();
        let t = h.borrow();
        let r = t.task_should_cancel(task_id);
        proof {
            let ms = choose|elapsed_ms: u128| r == #[trigger] t.spec_task_should_cancel_after(task_id, elapsed_ms);
            assert(t.wf() && r == t.spec_task_should_cancel_after(task_id, ms));
        }
        h.release_read();
        r
    }

    /// Records that the owning context is being dropped.
    pub fn mark_context_dropping(&self) {
        let (mut t, h) = self.state.acquire_write();
        t.mark_context_dropping();
        h.release_write(t);
    }

    /// Whether the owning context is being dropped.
    pub fn is_context_dropping(&self) -> (r: bool)
        ensures
            exists|s: AsyncTaskManager| s.wf() && r == #[trigger] s.context_dropping,
    {
        let h = self.state.acquire_read();
        let t = h.borrow();
        let r = t.is_context_dropping();
        assert(t.wf() && r == t.context_dropping);
        h.release_read();
        r
    }

    /// The number of active tasks.
    pub fn active_task_count(&self) -> (r: usize)
        ensures
            exists|s: AsyncTaskManager| s.wf() && r == #[trigger] s.spec_active_count(),
    {
        let h = self.state.acquire_read();
        let t = h.borrow();
        let r = t.active_task_count();
        assert(t.wf() && r == t.spec_active_count());
        h.release_read();
        r
    }

    /// The number of active cancellable tasks.
    pub fn cancellable_task_count(&self) -> (r: usize)
        ensures
            exists|s: AsyncTaskManager| s.wf() && r == #[trigger] s.spec_cancellable_count(),
    {
        let h = self.state.acquire_read();
        let t = h.borrow();
        let r = t.cancellable_task_count();
        assert(t.wf() && r == t.spec_cancellable_count());
        h.release_read();
        r
    }

    /// The number of active non-cancellable tasks.
    pub fn non_cancellable_task_count(&self) -> (r: usize)
        ensures
            exists|s: AsyncTaskManager| s.wf() && r == #[trigger] s.spec_non_cancellable_count(),
    {
        let h = self.state.acquire_read();
        let t = h.borrow();
        let r = t.non_cancellable_task_count();
        assert(t.wf() && r == t.spec_non_cancellable_count());
        h.release_read();
        r
    }

    /// Removes the finished tasks.
    pub fn cleanup_finished_tasks(&self) {
        let (mut t, h) = self.state.acquire_write();
        t.cleanup_finished_tasks();
        h.release_write(t);
    }

    /// Registers the JS callback handle to call when the task completes.
    pub fn register_callback(&self, task_id: u64, callback: u64) {
        let (mut t, h) = self.state.acquire_write();
        t.register_callback(task_id, callback);
        h.release_write(t);
    }

    /// Removes and returns the callback handle registered for the task.
    pub fn take_callback(&self, task_id: u64) -> (r: Option<u64>)
        ensures
            exists|s: AsyncTaskManager| s.wf() && r == callback_of(#[trigger] s.callbacks@, task_id),
    {
        let (mut t, h) = self.state.acquire_write();
        let ghost before = t;
        let r = t.take_callback(task_id);
        h.release_write(t);
        assert(before.wf() && r == callback_of(before.callbacks@, task_id));
        r
    }
}

impl SharedTaskManager {
    /// Drains the completions and plans the callback calls they make, in
    /// completion order, taking each callback as it is called.
    pub fn take_completion_calls(&self) -> (r: Vec<CompletionCall>)
        ensures
            exists|s: AsyncTaskManager|
                s.wf() && completion_calls_view(r@) == #[trigger] completion_plan(
                    s.completions@,
                    callback_map(s.callbacks@),
                ).0,
    {
        let (mut t, h) = self.state.acquire_write();
        let ghost before = t;
        let r = t.take_completion_calls();
        h.release_write(t);
        assert(before.wf() && completion_calls_view(r@) == completion_plan(
            before.completions@,
            callback_map(before.callbacks@),
        ).0);
        r
    }
}

impl Default for SharedTaskManager {
    fn default() -> (m: Self) {
        SharedTaskManager::new()
    }
}

impl Default for AsyncTaskManager {
    fn default() -> (m: Self)
        ensures
            m.wf(),
            m.ids_below_next(),
            m.next_id == 1,
            m.tasks@.len() == 0,
            m.callbacks@.len() == 0,
            m.completions@.len() == 0,
            !m.context_dropping,
    {
        AsyncTaskManager::new()
    }
}


/// A change to one task, looked up again: that task is changed, the others
/// are as they were; ids stay distinct.
proof fn lemma_lookup_update(s: Seq<AsyncTask>, id: u64, f: spec_fn(AsyncTask) -> AsyncTask, k: u64)
    requires
        ids_unique(s),
        forall|t: AsyncTask| #[trigger] f(t).id == t.id,
    ensures
        ids_unique(update_task(s, id, f)),
        lookup(update_task(s, id, f), k) == (if k == id {
            match lookup(s, id) {
                Some(t) => Some(f(t)),
                None => None,
            }
        } else {
            lookup(s, k)
        }),
{
    let u = update_task(s, id, f);
    assert forall|i: int| 0 <= i < s.len() implies #[trigger] u[i].id == s[i].id by {
        if s[i].id == id {
            assert(f(s[i]).id == s[i].id);
        }
    }
    assert forall|a: int, b: int| 0 <= a < b < u.len() implies u[a].id != u[b].id by {
        assert(u[a].id == s[a].id && u[b].id == s[b].id);
    }
    if has_task(s, k) {
        let j = choose|j: int| 0 <= j < s.len() && s[j].id == k;
        assert(u[j].id == k);
        let ju = choose|j2: int| 0 <= j2 < u.len() && u[j2].id == k;
        assert(s[ju].id == k);
        assert(ju == j);
    } else if has_task(u, k) {
        let ju = choose|j2: int| 0 <= j2 < u.len() && u[j2].id == k;
        assert(s[ju].id == k);
    }
}

/// A change to every task that satisfies `p`, looked up again.
proof fn lemma_lookup_update_where(
    s: Seq<AsyncTask>,
    p: spec_fn(AsyncTask) -> bool,
    f: spec_fn(AsyncTask) -> AsyncTask,
    k: u64,
)
    requires
        ids_unique(s),
        forall|t: AsyncTask| #[trigger] f(t).id == t.id,
    ensures
        lookup(update_where(s, p, f), k) == match lookup(s, k) {
            Some(t) => Some(if p(t) { f(t) } else { t }),
            None => None,
        },
{
    let u = update_where(s, p, f);
    assert forall|i: int| 0 <= i < s.len() implies #[trigger] u[i].id == s[i].id by {
        if p(s[i]) {
            assert(f(s[i]).id == s[i].id);
        }
    }
    if has_task(s, k) {
        let j = choose|j: int| 0 <= j < s.len() && s[j].id == k;
        assert(u[j].id == k);
        let ju = choose|j2: int| 0 <= j2 < u.len() && u[j2].id == k;
        assert(s[ju].id == k);
        assert(ju == j);
    } else if has_task(u, k) {
        let ju = choose|j2: int| 0 <= j2 < u.len() && u[j2].id == k;
        assert(s[ju].id == k);
    }
}

/// A pending task that is started and then completed runs and then is
/// completed; every other task is left as it was.
pub proof fn law_start_then_complete(tasks: Seq<AsyncTask>, id: u64, other: u64)
    requires
        ids_unique(tasks),
        lookup(tasks, id) matches Some(t) && t.status == TaskStatus::Pending,
    ensures
        ({
            let started = update_task(tasks, id, |t: AsyncTask| t.spec_started());
            let done = update_task(started, id, |t: AsyncTask| t.spec_completed());
            &&& lookup(started, id) matches Some(t) && t.status == TaskStatus::Running
            &&& lookup(done, id) matches Some(t) && t.status == TaskStatus::Completed
            &&& other != id ==> lookup(done, other) == lookup(tasks, other)
        }),
{
    let fs = |t: AsyncTask| t.spec_started();
    let fc = |t: AsyncTask| t.spec_completed();
    let started = update_task(tasks, id, fs);
    lemma_lookup_update(tasks, id, fs, id);
    lemma_lookup_update(tasks, id, fs, other);
    lemma_lookup_update(started, id, fc, id);
    lemma_lookup_update(started, id, fc, other);
}

/// Cancelling twice: once a `cancel_task` on a task succeeds, a second one,
/// whatever the clock then reads, returns `false` and changes no task.
pub proof fn law_cancel_twice(tasks: Seq<AsyncTask>, id: u64, first_ms: u128, second_ms: u128)
    requires
        ids_unique(tasks),
    ensures
        cancel_outcome(tasks, id, first_ms).0 ==> {
            let once = cancel_outcome(tasks, id, first_ms).1;
            &&& !cancel_outcome(once, id, second_ms).0
            &&& cancel_outcome(once, id, second_ms).1 == once
        },
{
    let f = |t: AsyncTask| t.spec_cancel_after(first_ms);
    let g = |t: AsyncTask| t.spec_cancel_after(second_ms);
    let once = update_task(tasks, id, f);
    lemma_lookup_update(tasks, id, f, id);
    if cancel_outcome(tasks, id, first_ms).0 {
        assert forall|i: int| 0 <= i < once.len() implies #[trigger] update_task(once, id, g)[i] == once[i] by {
            if once[i].id == id {
                let j = choose|j: int| 0 <= j < once.len() && once[j].id == id;
                assert(ids_unique(once));
                assert(i == j);
                assert(once[i].cancelled);
            }
        }
        assert(update_task(once, id, g) =~= once);
    }
}

/// A `@nonCancellable` task is never cancelled: `cancel_task` on it returns
/// `false` and changes no task, and `cancel_all_cancellable` leaves it as it
/// was.
pub proof fn law_non_cancellable_survives(tasks: Seq<AsyncTask>, id: u64, elapsed_ms: u128)
    requires
        ids_unique(tasks),
        forall|i: int| 0 <= i < tasks.len() ==> (#[trigger] tasks[i]).wf(),
        lookup(tasks, id) matches Some(t) && t.priority == TaskPriority::NonCancellable,
    ensures
        !cancel_outcome(tasks, id, elapsed_ms).0,
        cancel_outcome(tasks, id, elapsed_ms).1 == tasks,
        lookup(
            update_where(tasks, |t: AsyncTask| pred_cancellable(t), |t: AsyncTask| t.spec_cancelled()),
            id,
        ) == lookup(tasks, id),
{
    let f = |t: AsyncTask| t.spec_cancel_after(elapsed_ms);
    let j = choose|j: int| 0 <= j < tasks.len() && tasks[j].id == id;
    assert(tasks[j].wf());
    assert forall|i: int| 0 <= i < tasks.len() implies #[trigger] update_task(tasks, id, f)[i]
        == tasks[i] by {
        if tasks[i].id == id {
            assert(i == j);
        }
    }
    assert(update_task(tasks, id, f) =~= tasks);
    lemma_lookup_update_where(
        tasks,
        |t: AsyncTask| pred_cancellable(t),
        |t: AsyncTask| t.spec_cancelled(),
        id,
    );
}

proof fn lemma_cancel_all_effect(
    s: Seq<AsyncTask>,
    p: spec_fn(AsyncTask) -> bool,
    f: spec_fn(AsyncTask) -> AsyncTask,
    q: spec_fn(AsyncTask) -> bool,
    r: spec_fn(AsyncTask) -> bool,
)
    requires
        forall|i: int| 0 <= i < s.len() ==> (#[trigger] s[i]).wf(),
        forall|t: AsyncTask| #[trigger] p(t) == pred_cancellable(t),
        forall|t: AsyncTask| #[trigger] f(t) == t.spec_cancelled(),
        forall|t: AsyncTask| #[trigger] q(t) == pred_cancellable_active(t),
        forall|t: AsyncTask| #[trigger] r(t) == pred_non_cancellable_active(t),
    ensures
        ids_where(update_where(s, p, f), q).len() == 0,
        ids_where(update_where(s, p, f), r) == ids_where(s, r),
    decreases s.len(),
{
    if s.len() > 0 {
        let rest = s.drop_last();
        assert forall|i: int| 0 <= i < rest.len() implies (#[trigger] rest[i]).wf() by {
            assert(rest[i] == s[i]);
        }
        lemma_cancel_all_effect(rest, p, f, q, r);
        let u = update_where(s, p, f);
        assert(u.drop_last() =~= update_where(rest, p, f));
        let last = s.last();
        assert(last.wf()) by {
            assert(s[s.len() - 1] == last);
        }
        assert(u.last() == (if p(last) { f(last) } else { last }));
        assert(!q(u.last()));
        assert(r(u.last()) == r(last));
        assert(u.last().id == last.id);
    }
}

/// After `cancel_all_cancellable`, no cancellable task is active (pending or
/// running), and the active non-cancellable tasks are the same as before.
pub proof fn law_cancel_all_leaves_no_active_cancellable(tasks: Seq<AsyncTask>)
    requires
        forall|i: int| 0 <= i < tasks.len() ==> (#[trigger] tasks[i]).wf(),
    ensures
        ({
            let after = update_where(
                tasks,
                |t: AsyncTask| pred_cancellable(t),
                |t: AsyncTask| t.spec_cancelled(),
            );
            &&& ids_where(after, |t: AsyncTask| pred_cancellable_active(t)).len() == 0
            &&& ids_where(after, |t: AsyncTask| pred_non_cancellable_active(t)) == ids_where(
                tasks,
                |t: AsyncTask| pred_non_cancellable_active(t),
            )
        }),
{
    lemma_cancel_all_effect(
        tasks,
        |t: AsyncTask| pred_cancellable(t),
        |t: AsyncTask| t.spec_cancelled(),
        |t: AsyncTask| pred_cancellable_active(t),
        |t: AsyncTask| pred_non_cancellable_active(t),
    );
}

proof fn lemma_ids_where_of_tasks_where(s: Seq<AsyncTask>, p: spec_fn(AsyncTask) -> bool)
    ensures
        ids_where(tasks_where(s, p), p) == ids_where(s, p),
    decreases s.len(),
{
    if s.len() > 0 {
        lemma_ids_where_of_tasks_where(s.drop_last(), p);
        let k = tasks_where(s.drop_last(), p);
        if p(s.last()) {
            assert(k.push(s.last()).drop_last() =~= k);
        }
    }
}

/// `cleanup_finished_tasks` keeps exactly the active tasks: afterwards every
/// task is active, and the active tasks (and so their number) are the same.
pub proof fn law_cleanup_keeps_active(tasks: Seq<AsyncTask>)
    requires
        ids_unique(tasks),
        forall|i: int| 0 <= i < tasks.len() ==> (#[trigger] tasks[i]).wf(),
    ensures
        ({
            let kept = tasks_where(tasks, |t: AsyncTask| pred_active(t));
            &&& forall|i: int| 0 <= i < kept.len() ==> (#[trigger] kept[i]).spec_is_active()
            &&& ids_where(kept, |t: AsyncTask| pred_active(t)) == ids_where(
                tasks,
                |t: AsyncTask| pred_active(t),
            )
        }),
{
    let pa = |t: AsyncTask| pred_active(t);
    lemma_tasks_where_sub(tasks, pa);
    lemma_ids_where_of_tasks_where(tasks, pa);
}


/// The ids that `ids_where` lists are those of the tasks that satisfy `p`;
/// over distinct task ids they are distinct.
proof fn lemma_ids_where_mem(s: Seq<AsyncTask>, p: spec_fn(AsyncTask) -> bool, k: u64)
    ensures
        ids_where(s, p).contains(k) <==> exists|j: int| 0 <= j < s.len() && s[j].id == k && p(s[j]),
        ids_unique(s) ==> ids_where(s, p).no_duplicates(),
    decreases s.len(),
{
    if s.len() > 0 {
        let rest = s.drop_last();
        lemma_ids_where_mem(rest, p, k);
        lemma_ids_where_mem(rest, p, s.last().id);
        let r = ids_where(rest, p);
        if exists|j: int| 0 <= j < s.len() && s[j].id == k && p(s[j]) {
            let j = choose|j: int| 0 <= j < s.len() && s[j].id == k && p(s[j]);
            if j < rest.len() {
                assert(rest[j] == s[j]);
                assert(r.contains(k));
                let m = choose|m: int| 0 <= m < r.len() && r[m] == k;
                if p(s.last()) {
                    assert(r.push(s.last().id)[m] == k);
                }
                assert(ids_where(s, p).contains(k));
            } else {
                assert(s[j] == s.last());
                assert(ids_where(s, p) == r.push(s.last().id));
                assert(ids_where(s, p)[r.len() as int] == k);
            }
        }
        if ids_where(s, p).contains(k) {
            if p(s.last()) {
                let m = choose|m: int| 0 <= m < ids_where(s, p).len() && ids_where(s, p)[m] == k;
                if m < r.len() {
                    assert(r[m] == k);
                    let j = choose|j: int| 0 <= j < rest.len() && rest[j].id == k && p(rest[j]);
                    assert(s[j] == rest[j]);
                } else {
                    assert(s[s.len() - 1] == s.last());
                }
            } else {
                let j = choose|j: int| 0 <= j < rest.len() && rest[j].id == k && p(rest[j]);
                assert(s[j] == rest[j]);
            }
        }
        if ids_unique(s) {
            assert(ids_unique(rest)) by {
                assert forall|a: int, b: int| 0 <= a < b < rest.len() implies rest[a].id != rest[b].id by {
                    assert(rest[a] == s[a] && rest[b] == s[b]);
                }
            }
            if p(s.last()) {
                assert(!r.contains(s.last().id)) by {
                    if r.contains(s.last().id) {
                        let j = choose|j: int|
                            0 <= j < rest.len() && rest[j].id == s.last().id && p(rest[j]);
                        assert(s[j] == rest[j]);
                        assert(s[s.len() - 1] == s.last());
                    }
                }
                assert forall|a: int, b: int|
                    0 <= a < b < r.push(s.last().id).len() implies r.push(s.last().id)[a] != r.push(
                    s.last().id,
                )[b] by {
                    if b == r.len() {
                        assert(r.contains(r[a]));
                    }
                }
            }
        }
    }
}

/// Over distinct ids, the task of a list with a given id is the one that
/// `lookup` finds.
proof fn lemma_lookup_at(s: Seq<AsyncTask>, j: int)
    requires
        ids_unique(s),
        0 <= j < s.len(),
    ensures
        lookup(s, s[j].id) == Some(s[j]),
{
    let i = choose|i: int| 0 <= i < s.len() && s[i].id == s[j].id;
    assert(i == j);
}

/// A task is kept by `tasks_where` exactly when it is in the list and
/// satisfies `p`.
proof fn lemma_tasks_where_mem(s: Seq<AsyncTask>, p: spec_fn(AsyncTask) -> bool, x: AsyncTask)
    ensures
        tasks_where(s, p).contains(x) <==> (s.contains(x) && p(x)),
    decreases s.len(),
{
    if s.len() > 0 {
        let rest = s.drop_last();
        lemma_tasks_where_mem(rest, p, x);
        let r = tasks_where(rest, p);
        if s.contains(x) && p(x) {
            let j = choose|j: int| 0 <= j < s.len() && s[j] == x;
            if j < rest.len() {
                assert(rest[j] == x);
                let m = choose|m: int| 0 <= m < r.len() && r[m] == x;
                if p(s.last()) {
                    assert(r.push(s.last())[m] == x);
                }
            } else {
                assert(r.push(s.last())[r.len() as int] == x);
            }
        }
        if tasks_where(s, p).contains(x) {
            let m = choose|m: int| 0 <= m < tasks_where(s, p).len() && tasks_where(s, p)[m] == x;
            if p(s.last()) && m == r.len() {
                assert(s[s.len() - 1] == x);
            } else {
                assert(r[m] == x);
                let j = choose|j: int| 0 <= j < rest.len() && rest[j] == x;
                assert(s[j] == x);
            }
        }
    }
}

/// The id lists of the queries name each task at most once.
pub proof fn law_query_ids_distinct(tasks: Seq<AsyncTask>, p: spec_fn(AsyncTask) -> bool)
    requires
        ids_unique(tasks),
    ensures
        ids_where(tasks, p).no_duplicates(),
{
    lemma_ids_where_mem(tasks, p, 0);
}

/// `cancel_all_cancellable` returns each not yet cancelled cancellable task
/// once, and no other; afterwards every cancellable task is cancelled, the
/// other tasks are as they were, and a second call returns nothing.
pub proof fn law_cancel_all_cancels_exactly_the_cancellable(tasks: Seq<AsyncTask>, k: u64)
    requires
        ids_unique(tasks),
        forall|i: int| 0 <= i < tasks.len() ==> (#[trigger] tasks[i]).wf(),
    ensures
        ({
            let r = ids_where(tasks, |t: AsyncTask| pred_cancellable_uncancelled(t));
            let after = update_where(
                tasks,
                |t: AsyncTask| pred_cancellable(t),
                |t: AsyncTask| t.spec_cancelled(),
            );
            &&& r.no_duplicates()
            &&& r.contains(k) <==> (lookup(tasks, k) matches Some(t) && t.spec_is_cancellable()
                && !t.cancelled)
            &&& (lookup(tasks, k) matches Some(t) && t.spec_is_cancellable()) ==> (lookup(after, k) matches Some(
                u,
            ) && u.cancelled && u.status == TaskStatus::Cancelled)
            &&& (lookup(tasks, k) matches Some(t) && !t.spec_is_cancellable()) ==> lookup(after, k)
                == lookup(tasks, k)
            &&& ids_where(after, |t: AsyncTask| pred_cancellable_uncancelled(t)).len() == 0
        }),
{
    let pu = |t: AsyncTask| pred_cancellable_uncancelled(t);
    let pc = |t: AsyncTask| pred_cancellable(t);
    let f = |t: AsyncTask| t.spec_cancelled();
    let after = update_where(tasks, pc, f);
    lemma_ids_where_mem(tasks, pu, k);
    lemma_lookup_update_where(tasks, pc, f, k);
    if has_task(tasks, k) {
        let j = choose|j: int| 0 <= j < tasks.len() && tasks[j].id == k;
        lemma_lookup_at(tasks, j);
        assert(tasks[j].wf());
    }
    if exists|j: int| 0 <= j < tasks.len() && tasks[j].id == k && pu(tasks[j]) {
        let j = choose|j: int| 0 <= j < tasks.len() && tasks[j].id == k && pu(tasks[j]);
        lemma_lookup_at(tasks, j);
    }
    let r2 = ids_where(after, pu);
    if r2.len() > 0 {
        lemma_ids_where_mem(after, pu, r2[0]);
        assert(r2.contains(r2[0]));
        let j = choose|j: int| 0 <= j < after.len() && after[j].id == r2[0] && pu(after[j]);
        assert(tasks[j].wf());
    }
}

/// `cleanup_finished_tasks` keeps each active task and drops each finished
/// one: afterwards a finished task's id is no longer found, an active
/// task's id finds that task unchanged.
pub proof fn law_cleanup_removes_finished(tasks: Seq<AsyncTask>, k: u64)
    requires
        ids_unique(tasks),
        forall|i: int| 0 <= i < tasks.len() ==> (#[trigger] tasks[i]).wf(),
    ensures
        lookup(tasks_where(tasks, |t: AsyncTask| pred_active(t)), k) == match lookup(tasks, k) {
            Some(t) => if t.spec_is_active() {
                Some(t)
            } else {
                None
            },
            None => None,
        },
{
    let pa = |t: AsyncTask| pred_active(t);
    let kept = tasks_where(tasks, pa);
    lemma_tasks_where_sub(tasks, pa);
    if has_task(kept, k) {
        let m = choose|m: int| 0 <= m < kept.len() && kept[m].id == k;
        assert(kept.contains(kept[m]));
        lemma_tasks_where_mem(tasks, pa, kept[m]);
        let j = choose|j: int| 0 <= j < tasks.len() && tasks[j] == kept[m];
        lemma_lookup_at(tasks, j);
        lemma_lookup_at(kept, m);
    } else if has_task(tasks, k) {
        let j = choose|j: int| 0 <= j < tasks.len() && tasks[j].id == k;
        lemma_lookup_at(tasks, j);
        assert(tasks.contains(tasks[j]));
        lemma_tasks_where_mem(tasks, pa, tasks[j]);
        if pa(tasks[j]) {
            let m = choose|m: int| 0 <= m < kept.len() && kept[m] == tasks[j];
            assert(kept[m].id == k);
        }
    }
}


/// The ids that `newly_cancelled_ids` lists are those of the tasks whose
/// `cancelled` flag went from false to true; over distinct ids they are
/// distinct.
proof fn lemma_newly_cancelled_mem(b: Seq<AsyncTask>, a: Seq<AsyncTask>, k: u64)
    requires
        a.len() == b.len(),
    ensures
        newly_cancelled_ids(b, a).contains(k) <==> exists|i: int|
            0 <= i < b.len() && b[i].id == k && !b[i].cancelled && a[i].cancelled,
        ids_unique(b) ==> newly_cancelled_ids(b, a).no_duplicates(),
    decreases b.len(),
{
    if b.len() > 0 {
        let br = b.drop_last();
        let ar = a.drop_last();
        lemma_newly_cancelled_mem(br, ar, k);
        lemma_newly_cancelled_mem(br, ar, b.last().id);
        let r = newly_cancelled_ids(br, ar);
        let hit = !b.last().cancelled && a.last().cancelled;
        assert(newly_cancelled_ids(b, a) == (if hit { r.push(b.last().id) } else { r }));
        if exists|i: int| 0 <= i < b.len() && b[i].id == k && !b[i].cancelled && a[i].cancelled {
            let i = choose|i: int| 0 <= i < b.len() && b[i].id == k && !b[i].cancelled && a[i].cancelled;
            if i < br.len() {
                assert(br[i] == b[i] && ar[i] == a[i]);
                assert(r.contains(k));
                let m = choose|m: int| 0 <= m < r.len() && r[m] == k;
                if hit {
                    assert(r.push(b.last().id)[m] == k);
                }
            } else {
                assert(b[i] == b.last() && a[i] == a.last());
                assert(r.push(b.last().id)[r.len() as int] == k);
            }
        }
        if newly_cancelled_ids(b, a).contains(k) {
            let m = choose|m: int|
                0 <= m < newly_cancelled_ids(b, a).len() && newly_cancelled_ids(b, a)[m] == k;
            if hit && m == r.len() {
                assert(b[b.len() - 1] == b.last() && a[a.len() - 1] == a.last());
            } else {
                assert(r[m] == k);
                assert(r.contains(k));
                let i = choose|i: int|
                    0 <= i < br.len() && br[i].id == k && !br[i].cancelled && ar[i].cancelled;
                assert(br[i] == b[i] && ar[i] == a[i]);
            }
        }
        if ids_unique(b) {
            assert(ids_unique(br)) by {
                assert forall|x: int, y: int| 0 <= x < y < br.len() implies br[x].id != br[y].id by {
                    assert(br[x] == b[x] && br[y] == b[y]);
                }
            }
            if hit {
                assert(!r.contains(b.last().id)) by {
                    if r.contains(b.last().id) {
                        let i = choose|i: int|
                            0 <= i < br.len() && br[i].id == b.last().id && !br[i].cancelled && ar[i].cancelled;
                        assert(b[i] == br[i]);
                        assert(b[b.len() - 1] == b.last());
                    }
                }
                assert forall|x: int, y: int|
                    0 <= x < y < r.push(b.last().id).len() implies r.push(b.last().id)[x] != r.push(
                    b.last().id,
                )[y] by {
                    if y == r.len() {
                        assert(r.contains(r[x]));
                    }
                }
            }
        }
    }
}

/// The timed-out sweep: it returns each task it cancelled once, and only
/// those; a task it cancelled is a deadline task, not cancelled before,
/// whose deadline had passed at some reading of the clock; every other task
/// is left as it was; and a task with a zero deadline is always cancelled.
pub proof fn law_timed_out_sweep(before: Seq<AsyncTask>, after: Seq<AsyncTask>, j: int)
    requires
        ids_unique(before),
        after.len() == before.len(),
        forall|i: int| 0 <= i < before.len() ==> swept(#[trigger] before[i], after[i]),
        0 <= j < before.len(),
    ensures
        ({
            let r = newly_cancelled_ids(before, after);
            let newly = !before[j].cancelled && after[j].cancelled;
            &&& r.no_duplicates()
            &&& r.contains(before[j].id) <==> newly
            &&& newly ==> before[j].spec_has_timeout() && after[j].status == TaskStatus::Cancelled
                && exists|e: u128| #[trigger] before[j].spec_should_cancel_after(e)
            &&& !newly ==> after[j] == before[j]
            &&& (before[j].spec_has_timeout() && before[j].timeout == Some(0u64) && !before[j].cancelled)
                ==> newly
        }),
{
    let b = before[j];
    assert(swept(b, after[j]));
    let e = choose|e: u128| after[j] == #[trigger] b.spec_swept_after(e);
    lemma_newly_cancelled_mem(before, after, b.id);
    if exists|i: int|
        0 <= i < before.len() && before[i].id == b.id && !before[i].cancelled && after[i].cancelled {
        let i = choose|i: int|
            0 <= i < before.len() && before[i].id == b.id && !before[i].cancelled && after[i].cancelled;
        assert(i == j);
    }
    if !b.cancelled && after[j].cancelled {
        assert(b.spec_should_cancel_after(e));
    }
}

} // verus!
