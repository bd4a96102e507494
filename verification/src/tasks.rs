//! The task registry: handles in issue order over a table of outcomes.
//!
//! A task runs to completion when it is spawned; the registry only keeps its
//! outcome until it is waited for. Waiting consumes the entry.

use std::collections::HashMap;
use uiua::value::Value;
use uiua::UiuaError;
use vstd::prelude::*;

verus! {

/// A value of the interpreter. The registry only carries it.
#[verifier::external_type_specification]
#[verifier::external_body]
pub struct ExValue(uiua::value::Value);

/// An error of the interpreter. The registry only carries it.
#[verifier::external_type_specification]
#[verifier::external_body]
pub struct ExUiuaError(uiua::UiuaError);

/// How a task ended: the values it produced, or the error it failed with.
pub type TaskOutcome = Result<Vec<Value>, UiuaError>;

/// The registry as mathematical values.
pub struct TaskTable {
    /// The handle that the next spawn issues.
    pub next: u64,
    /// The outcomes not yet waited for, by handle.
    pub results: Map<u64, TaskOutcome>,
}

/// One operation on the registry.
pub enum TaskOp {
    /// The next handle is issued.
    Issue,
    /// An outcome is stored under a handle.
    Store(u64, TaskOutcome),
    /// A task is spawned and ends with the given outcome: the next handle
    /// is issued and the outcome stored under it.
    Spawn(TaskOutcome),
    /// The task with the given handle is waited for.
    Wait(u64),
}

impl TaskTable {
    /// The registry of a new backend.
    pub open spec fn empty() -> TaskTable {
        TaskTable { next: 0, results: Map::empty() }
    }

    /// The registry after the next handle was issued. The counter wraps
    /// round at the end of its range.
    pub open spec fn issue(self) -> TaskTable {
        TaskTable {
            next: if self.next == u64::MAX {
                0
            } else {
                (self.next + 1) as u64
            },
            ..self
        }
    }

    /// The registry after `outcome` was stored under `handle`.
    pub open spec fn store(self, handle: u64, outcome: TaskOutcome) -> TaskTable {
        TaskTable { results: self.results.insert(handle, outcome), ..self }
    }

    /// The registry after a task was spawned and ended with `outcome`: the
    /// handle issued is `self.next`.
    pub open spec fn spawn(self, outcome: TaskOutcome) -> TaskTable {
        self.issue().store(self.next, outcome)
    }

    /// What a wait for `handle` finds: the stored outcome, or nothing.
    pub open spec fn lookup(self, handle: u64) -> Option<TaskOutcome> {
        if self.results.contains_key(handle) {
            Some(self.results[handle])
        } else {
            None
        }
    }

    /// What a wait for `handle` returns: the values of a task that
    /// succeeded, the error of one that failed, or the error for a handle
    /// that has no outcome stored.
    pub open spec fn wait_result(self, handle: u64) -> Result<
        Vec<Value>,
        Result<UiuaError, Seq<char>>,
    > {
        match self.lookup(handle) {
            Some(Ok(stack)) => Ok(stack),
            Some(Err(error)) => Err(Ok(error)),
            None => Err(Err(invalid_handle())),
        }
    }

    /// The registry after a wait for `handle`.
    pub open spec fn wait(self, handle: u64) -> TaskTable {
        TaskTable { results: self.results.remove(handle), ..self }
    }

    /// Every handle with a stored outcome was issued before `self.next`.
    pub open spec fn wf(self) -> bool {
        forall|handle: u64| self.results.contains_key(handle) ==> handle < self.next
    }

    /// The registry after one operation.
    pub open spec fn step(self, op: TaskOp) -> TaskTable {
        match op {
            TaskOp::Issue => self.issue(),
            TaskOp::Store(handle, outcome) => self.store(handle, outcome),
            TaskOp::Spawn(outcome) => self.spawn(outcome),
            TaskOp::Wait(handle) => self.wait(handle),
        }
    }

    /// The registry after the operations `ops`, in order.
    pub open spec fn run(self, ops: Seq<TaskOp>) -> TaskTable
        decreases ops.len(),
    {
        if ops.len() == 0 {
            self
        } else {
            self.run(ops.drop_last()).step(ops.last())
        }
    }

    /// The handles that `ops` issue, in order.
    pub open spec fn issued(self, ops: Seq<TaskOp>) -> Seq<u64>
        decreases ops.len(),
    {
        if ops.len() == 0 {
            Seq::empty()
        } else {
            let before = self.issued(ops.drop_last());
            if issues(ops.last()) {
                before.push(self.run(ops.drop_last()).next)
            } else {
                before
            }
        }
    }

    /// Whether every outcome that `ops` store goes under a handle that was
    /// issued before.
    pub open spec fn stores_issued_handles(self, ops: Seq<TaskOp>) -> bool
        decreases ops.len(),
    {
        if ops.len() == 0 {
            true
        } else {
            &&& self.stores_issued_handles(ops.drop_last())
            &&& ops.last() matches TaskOp::Store(handle, _) ==> handle < self.run(
                ops.drop_last(),
            ).next
        }
    }
}

/// Whether `op` issues a handle.
pub open spec fn issues(op: TaskOp) -> bool {
    op is Issue || op is Spawn
}

/// Whether `op` stores an outcome under `handle` without issuing it.
pub open spec fn stores_under(op: TaskOp, handle: u64) -> bool {
    op matches TaskOp::Store(stored, _) && stored == handle
}

/// The message of the error for a wait on a handle that has no outcome
/// stored.
pub open spec fn invalid_handle() -> Seq<char> {
    "Invalid thread handle"@
}

/// The result of a wait as mathematical values.
pub open spec fn wait_view(res: Result<Vec<Value>, Result<UiuaError, String>>) -> Result<
    Vec<Value>,
    Result<UiuaError, Seq<char>>,
> {
    match res {
        Ok(stack) => Ok(stack),
        Err(Ok(error)) => Err(Ok(error)),
        Err(Err(message)) => Err(Err(message@)),
    }
}

/// The task registry of one backend.
pub struct TaskRegistry {
    next_thread_id: u64,
    thread_results: HashMap<u64, TaskOutcome>,
}

impl View for TaskRegistry {
    type V = TaskTable;

    closed spec fn view(&self) -> TaskTable {
        TaskTable { next: self.next_thread_id, results: self.thread_results@ }
    }
}

impl TaskRegistry {
    /// A registry that has issued no handle and holds no outcome.
    pub fn new() -> (out: TaskRegistry)
        ensures
            out@ == TaskTable::empty(),
    {
        TaskRegistry { next_thread_id: 0, thread_results: HashMap::new() }
    }

    /// Issues the next task handle.
    pub fn issue_handle(&mut self) -> (handle: u64)
        ensures
            handle == old(self)@.next,
            final(self)@ == old(self)@.issue(),
    {
        let handle = self.next_thread_id;
        self.next_thread_id = handle.wrapping_add(1);
        handle
    }

    /// Stores the outcome of the task with the given handle, until it is
    /// waited for.
    pub fn store_outcome(&mut self, handle: u64, outcome: TaskOutcome)
        ensures
            final(self)@ == old(self)@.store(handle, outcome),
    {
        broadcast use vstd::std_specs::hash::group_hash_axioms;

        self.thread_results.insert(handle, outcome);
    }

    /// Registers a task that has run to completion with `outcome`: issues
    /// the next handle, stores the outcome under it and returns it.
    pub fn spawn(&mut self, outcome: TaskOutcome) -> (handle: u64)
        ensures
            handle == old(self)@.next,
            final(self)@ == old(self)@.spawn(outcome),
    {
        let handle = self.issue_handle();
        self.store_outcome(handle, outcome);
        handle
    }

    /// Takes the outcome of the task with the given handle out of the
    /// registry.
    pub fn wait(&mut self, handle: u64) -> (res: Result<Vec<Value>, Result<UiuaError, String>>)
        ensures
            wait_view(res) == old(self)@.wait_result(handle),
            final(self)@ == old(self)@.wait(handle),
    {
        broadcast use vstd::std_specs::hash::group_hash_axioms;

        match self.thread_results.remove(&handle) {
            Some(Ok(stack)) => Ok(stack),
            Some(Err(error)) => Err(Ok(error)),
            None => {
                assert(self.thread_results@ =~= old(self).thread_results@.remove(handle));
                Err(Err(String::from_str("Invalid thread handle")))
            },
        }
    }
}

/// The number of handles that `ops` issue.
pub open spec fn issue_count(ops: Seq<TaskOp>) -> nat
    decreases ops.len(),
{
    if ops.len() == 0 {
        0
    } else {
        issue_count(ops.drop_last()) + if issues(ops.last()) {
            1nat
        } else {
            0nat
        }
    }
}

/// While the handles do not run past the end of their range, the operations
/// `ops` issue the handles `table.next`, `table.next + 1`, ... in this order
/// and leave the counter behind the last of them, or at 0 where the last of
/// them is the greatest handle there is.
pub proof fn lemma_issued_handles_count_up(table: TaskTable, ops: Seq<TaskOp>)
    requires
        table.next + issue_count(ops) <= u64::MAX + 1,
    ensures
        table.run(ops).next == if table.next + issue_count(ops) <= u64::MAX {
            table.next + issue_count(ops)
        } else {
            0
        },
        table.issued(ops).len() == issue_count(ops),
        forall|i: int|
            0 <= i < issue_count(ops) ==> #[trigger] table.issued(ops)[i] == table.next + i,
    decreases ops.len(),
{
    if ops.len() > 0 {
        lemma_issued_handles_count_up(table, ops.drop_last());
    }
}

/// Handles are issued in strictly increasing order, so none is issued twice:
/// this holds of every sequence of operations that does not issue more
/// handles than are left in the range.
pub proof fn lemma_handles_strictly_increase(table: TaskTable, ops: Seq<TaskOp>, i: int, j: int)
    requires
        table.next + issue_count(ops) <= u64::MAX + 1,
        0 <= i < j < table.issued(ops).len(),
    ensures
        table.issued(ops)[i] < table.issued(ops)[j],
{
    lemma_issued_handles_count_up(table, ops);
}

/// A wait directly after a spawn returns the outcome of the spawned task,
/// and a second wait for the same handle fails: the handle has no outcome
/// stored any more.
pub proof fn lemma_wait_after_spawn(table: TaskTable, outcome: TaskOutcome)
    ensures
        table.spawn(outcome).lookup(table.next) == Some(outcome),
        table.spawn(outcome).wait_result(table.next) == match outcome {
            Ok(stack) => Ok::<Vec<Value>, Result<UiuaError, Seq<char>>>(stack),
            Err(error) => Err(Ok(error)),
        },
        table.spawn(outcome).wait(table.next).wait_result(table.next) == Err::<
            Vec<Value>,
            Result<UiuaError, Seq<char>>,
        >(Err(invalid_handle())),
{
}

/// A registry that has issued no handle is well-formed.
pub proof fn lemma_empty_is_wf()
    ensures
        TaskTable::empty().wf(),
{
}

/// Operations keep the registry well-formed while the counter does not reach
/// the end of its range and outcomes are stored only under handles that were
/// issued.
pub proof fn lemma_run_keeps_wf(table: TaskTable, ops: Seq<TaskOp>)
    requires
        table.wf(),
        table.next + issue_count(ops) <= u64::MAX,
        table.stores_issued_handles(ops),
    ensures
        table.run(ops).wf(),
    decreases ops.len(),
{
    if ops.len() > 0 {
        let before = ops.drop_last();
        lemma_run_keeps_wf(table, before);
        lemma_issued_handles_count_up(table, before);
    }
}

/// A handle that was issued and has no stored outcome stays without one
/// unless an outcome is stored under it again: nothing issues it a second
/// time, so every later wait for it fails.
pub proof fn lemma_consumed_handle_stays_invalid(table: TaskTable, handle: u64, ops: Seq<TaskOp>)
    requires
        handle < table.next,
        table.lookup(handle) is None,
        table.next + issue_count(ops) <= u64::MAX + 1,
        forall|i: int| 0 <= i < ops.len() ==> !stores_under(#[trigger] ops[i], handle),
    ensures
        table.run(ops).lookup(handle) is None,
        table.run(ops).wait_result(handle) == Err::<Vec<Value>, Result<UiuaError, Seq<char>>>(
            Err(invalid_handle()),
        ),
    decreases ops.len(),
{
    if ops.len() > 0 {
        let before = ops.drop_last();
        assert forall|i: int| 0 <= i < before.len() implies !stores_under(
            #[trigger] before[i],
            handle,
        ) by {
            assert(before[i] == ops[i]);
        }
        lemma_consumed_handle_stays_invalid(table, handle, before);
        lemma_issued_handles_count_up(table, before);
        assert(!stores_under(ops[ops.len() - 1], handle));
    }
}

} // verus!
