//! The restartable task: a one-shot asynchronous computation that is
//! relaunched unconditionally after every completion, so that it behaves
//! as an infinite sequence of outputs.
//!
//! The driver owns the factory and the in-flight computation; this module
//! owns every decision. On each poll the driver reports what it observed
//! (nothing in flight, still pending, or completed with a value) and the
//! [`Repeat`] state machine answers with what this poll of the task
//! reports, updating its bookkeeping: whether a computation is in flight
//! and how many times the factory has been invoked.

use vstd::prelude::*;

verus! {

/// What one poll of a task reports to its caller: a finished value, or
/// "not yet available".
#[derive(Debug, PartialEq, Eq)]
pub enum TaskPoll<T> {
    /// No value is available yet; the task will make progress on a later poll.
    Pending,
    /// The current computation finished with this value.
    Ready(T),
}

/// Mathematical state of a restartable task: whether a computation is in
/// flight, how many times the factory has been invoked, and every output
/// yielded so far.
#[verifier::ext_equal]
pub struct TaskState<T> {
    /// True while a computation produced by the factory is in flight.
    pub running: bool,
    /// Number of factory invocations so far.
    pub spawns: nat,
    /// Every output the task has yielded, oldest first.
    pub outputs: Seq<T>,
}

/// The state of a task that has never been polled.
pub open spec fn fresh_task<T>() -> TaskState<T> {
    TaskState { running: false, spawns: 0, outputs: Seq::empty() }
}

/// Effect of launching a fresh computation: one more factory invocation,
/// a computation now in flight, no new output.
pub open spec fn started<T>(s: TaskState<T>) -> TaskState<T> {
    TaskState { running: true, spawns: s.spawns + 1, outputs: s.outputs }
}

/// Effect of a completion with value `v`: the output is recorded and a
/// replacement computation is launched at once, so the task is in flight
/// again and the factory count grows by one.
pub open spec fn completed<T>(s: TaskState<T>, v: T) -> TaskState<T> {
    TaskState { running: true, spawns: s.spawns + 1, outputs: s.outputs.push(v) }
}

/// Restart bookkeeping invariant: the factory has been invoked exactly
/// once per recorded output, plus once more for the computation currently
/// in flight. A task is never "finished": after any completion it is
/// immediately in flight again.
pub open spec fn task_wf<T>(s: TaskState<T>) -> bool {
    s.spawns == s.outputs.len() + (if s.running { 1nat } else { 0nat })
}

/// A restartable task. The driver holds the factory and the in-flight
/// computation; this value holds the task's state and decides every
/// transition of the relaunch cycle.
pub struct Repeat<T> {
    running: bool,
    spawns: u64,
    outputs: Ghost<Seq<T>>,
}

impl<T> View for Repeat<T> {
    type V = TaskState<T>;

    closed spec fn view(&self) -> TaskState<T> {
        TaskState { running: self.running, spawns: self.spawns as nat, outputs: self.outputs@ }
    }
}

impl<T> Repeat<T> {
    /// Create a repeating task that has not yet launched its first
    /// computation.
    pub fn new() -> (r: Self)
        ensures
            r@ == fresh_task::<T>(),
    {
        Repeat { running: false, spawns: 0, outputs: Ghost(Seq::empty()) }
    }

    /// True while a computation produced by the factory is in flight; the
    /// driver advances that computation on the next poll. False only
    /// before the first poll: the driver must then invoke the factory.
    pub fn is_running(&self) -> (b: bool)
        ensures
            b == self@.running,
    {
        self.running
    }

    /// How many times the factory has been invoked so far.
    pub fn spawn_count(&self) -> (n: u64)
        ensures
            n == self@.spawns,
    {
        self.spawns
    }

    /// One poll of the task. `inner` is what the driver observed:
    /// `None` when no computation was in flight — the driver has just
    /// invoked the factory and stored the fresh computation it returned —
    /// and `Some(..)` with the response of the in-flight computation
    /// otherwise.
    ///
    /// On `None` the launch is recorded and the poll reports `Pending`;
    /// the driver must also request an immediate wake-up, so that the
    /// fresh computation is driven on a subsequent poll instead of
    /// stalling. On a completion the driver must invoke the factory once
    /// more and store the replacement computation before handing the
    /// value out; the transition counts that relaunch.
    pub fn poll(&mut self, inner: Option<TaskPoll<T>>) -> (out: TaskPoll<T>)
        requires
            inner is None <==> !old(self)@.running,
            old(self)@.spawns < u64::MAX,
        ensures
            match inner {
                None => final(self)@ == started(old(self)@) && out is Pending,
                Some(TaskPoll::Pending) => final(self)@ == old(self)@ && out is Pending,
                Some(TaskPoll::Ready(v)) => final(self)@ == completed(old(self)@, v)
                    && out == TaskPoll::Ready(v),
            },
            task_wf(old(self)@) ==> task_wf(final(self)@),
    {
        match inner {
            None => {
                self.running = true;
                self.spawns = self.spawns + 1;
                TaskPoll::Pending
            },
            Some(TaskPoll::Pending) => TaskPoll::Pending,
            Some(TaskPoll::Ready(v)) => TaskPoll::Ready(self.complete(v)),
        }
    }

    /// The in-flight computation completed with `v`: record the output
    /// and the immediate relaunch, and hand the value back unchanged.
    pub(crate) fn complete(&mut self, v: T) -> (out: T)
        requires
            old(self)@.running,
            old(self)@.spawns < u64::MAX,
        ensures
            out == v,
            final(self)@ == completed(old(self)@, v),
    {
        self.spawns = self.spawns + 1;
        self.outputs = Ghost(self.outputs@.push(v));
        v
    }
}

/// What the driver observed from the in-flight computation at one poll of
/// a running task: still pending, or completed with a value. When no
/// computation is in flight the driver launches one instead, and there is
/// nothing to observe.
pub enum TaskEvent<T> {
    /// The in-flight computation has not finished yet.
    StillPending,
    /// The in-flight computation finished with this value.
    Completed(T),
}

/// One poll of a task, as a transition on its mathematical state: the new
/// state, and the output this poll reports (`None` for "not yet
/// available"). A task that is not in flight launches a computation and
/// reports nothing; a running one passes its computation's response
/// through, relaunching on completion.
pub open spec fn task_poll_tr<T>(s: TaskState<T>, ev: TaskEvent<T>) -> (TaskState<T>, Option<T>) {
    if !s.running {
        (started(s), None)
    } else {
        match ev {
            TaskEvent::StillPending => (s, None),
            TaskEvent::Completed(v) => (completed(s, v), Some(v)),
        }
    }
}

/// A whole run: the state after polling once per event in `evs`, and the
/// output of each poll, in order.
pub open spec fn task_run<T>(s: TaskState<T>, evs: Seq<TaskEvent<T>>) -> (TaskState<T>, Seq<
    Option<T>,
>)
    decreases evs.len(),
{
    if evs.len() == 0 {
        (s, Seq::empty())
    } else {
        let first = task_poll_tr(s, evs[0]);
        let rest = task_run(first.0, evs.skip(1));
        (rest.0, seq![first.1] + rest.1)
    }
}

/// A run reports exactly one output per poll, bookkeeping stays sound
/// (`task_wf` is preserved), and a task that was ever polled is in flight
/// from then on — it never reaches a terminal state.
pub proof fn lemma_task_run_basics<T>(s: TaskState<T>, evs: Seq<TaskEvent<T>>)
    requires
        task_wf(s),
    ensures
        task_run(s, evs).1.len() == evs.len(),
        task_wf(task_run(s, evs).0),
        s.running || evs.len() > 0 ==> task_run(s, evs).0.running,
    decreases evs.len(),
{
    if evs.len() > 0 {
        let first = task_poll_tr(s, evs[0]);
        lemma_task_run_basics(first.0, evs.skip(1));
    }
}

/// Restart bookkeeping: after any nonempty sequence of polls of a freshly
/// built task, the factory has been invoked exactly once more than the
/// number of outputs produced — one invocation per completed output, plus
/// the initial launch.
pub proof fn lemma_restart_count<T>(evs: Seq<TaskEvent<T>>)
    requires
        evs.len() > 0,
    ensures
        ({
            let end = task_run(fresh_task::<T>(), evs).0;
            end.spawns == end.outputs.len() + 1
        }),
{
    lemma_task_run_basics(fresh_task::<T>(), evs);
}

/// A task whose computations are all immediately ready: the first poll of
/// a fresh task yields nothing (the startup round-trip that lets the new
/// computation register its wake-up), and every later poll yields exactly
/// the value its computation completed with.
pub proof fn lemma_immediate_run<T>(evs: Seq<TaskEvent<T>>)
    requires
        forall|i: int| 0 <= i < evs.len() ==> evs[i] is Completed,
    ensures
        ({
            let outs = task_run(fresh_task::<T>(), evs).1;
            &&& outs.len() == evs.len()
            &&& evs.len() > 0 ==> outs[0] is None
            &&& forall|i: int| 1 <= i < evs.len() ==> outs[i] == Some(evs[i]->Completed_0)
        }),
{
    if evs.len() > 0 {
        lemma_running_immediate_run(started(fresh_task::<T>()), evs.skip(1));
        assert forall|i: int| 1 <= i < evs.len() implies task_run(fresh_task::<T>(), evs).1[i]
            == Some(evs[i]->Completed_0) by {
            assert(evs.skip(1)[i - 1] == evs[i]);
        }
    }
}

/// Helper for [`lemma_immediate_run`]: from a task already in flight, a
/// run of immediately-ready polls yields each completed value in order.
proof fn lemma_running_immediate_run<T>(s: TaskState<T>, evs: Seq<TaskEvent<T>>)
    requires
        s.running,
        forall|i: int| 0 <= i < evs.len() ==> evs[i] is Completed,
    ensures
        ({
            let outs = task_run(s, evs).1;
            &&& outs.len() == evs.len()
            &&& forall|i: int| 0 <= i < evs.len() ==> outs[i] == Some(evs[i]->Completed_0)
        }),
    decreases evs.len(),
{
    if evs.len() > 0 {
        let first = task_poll_tr(s, evs[0]);
        lemma_running_immediate_run(first.0, evs.skip(1));
        assert forall|i: int| 0 <= i < evs.len() implies task_run(s, evs).1[i] == Some(
            evs[i]->Completed_0,
        ) by {
            if i > 0 {
                assert(evs.skip(1)[i - 1] == evs[i]);
            }
        }
    }
}

/// A factory whose computations complete at once with alternating
/// outputs: the polls after the first yield exactly the alternating
/// prefix, starting with the first computation's output.
pub proof fn lemma_alternating_factory(k: nat)
    ensures
        ({
            let evs = Seq::new(
                k,
                |i: int|
                    TaskEvent::Completed(
                        if i % 2 == 1 {
                            1u64
                        } else {
                            2u64
                        },
                    ),
            );
            let outs = task_run(fresh_task::<u64>(), evs).1;
            &&& outs.len() == k
            &&& k > 0 ==> outs[0] is None
            &&& forall|i: int|
                1 <= i < k ==> outs[i] == Some(
                    if i % 2 == 1 {
                        1u64
                    } else {
                        2u64
                    },
                )
        }),
{
    let evs = Seq::new(
        k,
        |i: int|
            TaskEvent::Completed(
                if i % 2 == 1 {
                    1u64
                } else {
                    2u64
                },
            ),
    );
    lemma_immediate_run(evs);
}

/// A factory that always completes at once with the same value `v`: every
/// poll after the first yields `v`, and the first yields nothing.
pub proof fn lemma_constant_factory<T>(v: T, n: nat)
    ensures
        ({
            let outs = task_run(fresh_task::<T>(), Seq::new(n, |i: int| TaskEvent::Completed(v))).1;
            &&& outs.len() == n
            &&& n > 0 ==> outs[0] is None
            &&& forall|i: int| 1 <= i < n ==> outs[i] == Some(v)
        }),
{
    let evs = Seq::new(n, |i: int| TaskEvent::Completed(v));
    lemma_immediate_run(evs);
}

} // verus!
