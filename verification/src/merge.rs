//! Fair fan-in merge over a fixed set of restartable tasks.
//!
//! A [`RepeatsBuilder`] accumulates units; [`RepeatsBuilder::finish`]
//! turns it into a [`Repeats`], a single infinite sequence that yields
//! whichever unit produces a value next. Each top-level poll is a round
//! of micro-steps: the merger names the unit to service next, the driver
//! services it (launching its computation or advancing it) and reports
//! what happened, and the merger advances. Units are serviced in rotation
//! starting at a cursor; when a unit completes, the round ends, the value
//! is yielded, and the cursor moves just past that unit, so no unit is
//! ever starved. When every unit in a round stayed pending, the round
//! ends with "not yet available". A merger with no units is an
//! immediately exhausted sequence.

use vstd::prelude::*;

use crate::repeat::Repeat;
use crate::repeat::TaskState;
use crate::repeat::completed;
use crate::repeat::fresh_task;
use crate::repeat::started;
use crate::repeat::task_wf;

verus! {

/// Mathematical state of the merger: the state of each owned unit, the
/// rotation cursor (the unit served first in the current round), and how
/// many units the current round has already serviced.
#[verifier::ext_equal]
pub struct MergerState<T> {
    /// The owned units, in the order they were added.
    pub units: Seq<TaskState<T>>,
    /// The unit at which the current round started.
    pub cursor: int,
    /// Units already serviced in the current round.
    pub scanned: int,
}

/// Well-formedness of a merger: every unit's bookkeeping is sound, and
/// cursor and scan position lie within the unit collection (both are zero
/// for a merger without units).
pub open spec fn merger_wf<T>(m: MergerState<T>) -> bool {
    &&& forall|j: int| 0 <= j < m.units.len() ==> task_wf(#[trigger] m.units[j])
    &&& if m.units.len() == 0 {
        m.cursor == 0 && m.scanned == 0
    } else {
        0 <= m.cursor < m.units.len() && 0 <= m.scanned < m.units.len()
    }
}

/// The unit the current round services next: `scanned` places past the
/// cursor, wrapping around the end of the collection.
pub open spec fn scan_pos<T>(m: MergerState<T>) -> int {
    if m.cursor + m.scanned < m.units.len() {
        m.cursor + m.scanned
    } else {
        m.cursor + m.scanned - m.units.len()
    }
}

/// Scan counter after a unit stayed pending: one more unit serviced, or
/// zero again when that was the last unit of the round.
pub open spec fn next_scan<T>(m: MergerState<T>) -> int {
    if m.scanned + 1 == m.units.len() {
        0
    } else {
        m.scanned + 1
    }
}

/// True when the unit just serviced was the last one of the round: the
/// round ends and the merger reports "not yet available".
pub open spec fn round_over<T>(m: MergerState<T>) -> bool {
    m.scanned + 1 == m.units.len()
}

/// Transition for a unit that had no computation in flight: the driver
/// launched one, the unit counts the launch and stays pending, and the
/// scan moves on.
pub open spec fn spawned_tr<T>(m: MergerState<T>) -> MergerState<T> {
    MergerState {
        units: m.units.update(scan_pos(m), started(m.units[scan_pos(m)])),
        cursor: m.cursor,
        scanned: next_scan(m),
    }
}

/// Transition for a unit whose computation is still pending: nothing
/// changes except that the scan moves on.
pub open spec fn pending_tr<T>(m: MergerState<T>) -> MergerState<T> {
    MergerState { units: m.units, cursor: m.cursor, scanned: next_scan(m) }
}

/// Transition for a unit whose computation completed with `v`: the unit
/// records the output and its relaunch, the round ends, and the next
/// round starts just past the unit that yielded — the rotation that keeps
/// the merge fair.
pub open spec fn ready_tr<T>(m: MergerState<T>, v: T) -> MergerState<T> {
    let p = scan_pos(m);
    MergerState {
        units: m.units.update(p, completed(m.units[p], v)),
        cursor: if p + 1 == m.units.len() {
            0
        } else {
            p + 1
        },
        scanned: 0,
    }
}

/// What the driver must do next for the merger.
#[derive(Debug, PartialEq, Eq)]
pub enum MergeAction {
    /// The merger owns no units: the sequence is exhausted, there is
    /// nothing to drive.
    Finished,
    /// This unit has no computation in flight: invoke its factory, store
    /// the computation, and report it with [`Repeats::note_spawned`].
    Spawn(usize),
    /// This unit has a computation in flight: advance it and report the
    /// outcome with [`Repeats::note_pending`] or [`Repeats::note_ready`].
    Advance(usize),
}

/// A fair merger over a fixed collection of restartable units, built with
/// [`RepeatsBuilder`]. The driver holds the factories and in-flight
/// computations; this value decides which unit is serviced when and what
/// each top-level poll reports.
pub struct Repeats<T> {
    units: Vec<Repeat<T>>,
    cursor: usize,
    scanned: usize,
}

impl<T> View for Repeats<T> {
    type V = MergerState<T>;

    closed spec fn view(&self) -> MergerState<T> {
        MergerState {
            units: self.units@.map_values(|u: Repeat<T>| u@),
            cursor: self.cursor as int,
            scanned: self.scanned as int,
        }
    }
}

impl<T> Repeats<T> {
    /// How many units the merger owns; fixed at construction.
    pub fn unit_count(&self) -> (n: usize)
        ensures
            n == self@.units.len(),
    {
        self.units.len()
    }

    /// What the driver must do next: nothing (no units), launch the
    /// computation of the unit the rotation reaches next, or advance that
    /// unit's in-flight computation.
    pub fn next_action(&self) -> (a: MergeAction)
        requires
            merger_wf(self@),
        ensures
            self@.units.len() == 0 ==> a == MergeAction::Finished,
            self@.units.len() > 0 && !self@.units[scan_pos(self@)].running ==> a
                == MergeAction::Spawn(scan_pos(self@) as usize),
            self@.units.len() > 0 && self@.units[scan_pos(self@)].running ==> a
                == MergeAction::Advance(scan_pos(self@) as usize),
    {
        let n = self.units.len();
        if n == 0 {
            MergeAction::Finished
        } else {
            let pos = if self.scanned < n - self.cursor {
                self.cursor + self.scanned
            } else {
                self.scanned - (n - self.cursor)
            };
            if self.units[pos].is_running() {
                MergeAction::Advance(pos)
            } else {
                MergeAction::Spawn(pos)
            }
        }
    }

    /// The driver invoked the factory of the unit at the scan position
    /// and stored the fresh computation it returned. The unit counts the
    /// launch and stays pending; the scan moves to the next unit. Returns
    /// true when this was the last unit of the round: the merger then
    /// reports "not yet available", and the driver must request an
    /// immediate wake-up so the fresh computations get driven.
    pub fn note_spawned(&mut self) -> (over: bool)
        requires
            merger_wf(old(self)@),
            old(self)@.units.len() > 0,
            !old(self)@.units[scan_pos(old(self)@)].running,
            old(self)@.units[scan_pos(old(self)@)].spawns < u64::MAX,
        ensures
            final(self)@ == spawned_tr(old(self)@),
            over == round_over(old(self)@),
            merger_wf(final(self)@),
    {
        let n = self.units.len();
        let pos = if self.scanned < n - self.cursor {
            self.cursor + self.scanned
        } else {
            self.scanned - (n - self.cursor)
        };
        let unit = &mut self.units[pos];
        let _ = unit.poll(None);
        let over = self.scanned + 1 == n;
        self.scanned = if over {
            0
        } else {
            self.scanned + 1
        };
        proof {
            assert(final(self)@.units =~= spawned_tr(old(self)@).units);
        }
        over
    }

    /// The driver advanced the in-flight computation of the unit at the
    /// scan position and it was still pending. The scan moves to the next
    /// unit. Returns true when this was the last unit of the round: every
    /// unit stayed pending, and the merger reports "not yet available".
    pub fn note_pending(&mut self) -> (over: bool)
        requires
            merger_wf(old(self)@),
            old(self)@.units.len() > 0,
            old(self)@.units[scan_pos(old(self)@)].running,
        ensures
            final(self)@ == pending_tr(old(self)@),
            over == round_over(old(self)@),
            merger_wf(final(self)@),
    {
        let n = self.units.len();
        let over = self.scanned + 1 == n;
        self.scanned = if over {
            0
        } else {
            self.scanned + 1
        };
        over
    }

    /// The driver advanced the in-flight computation of the unit at the
    /// scan position and it completed with `v`; the driver must invoke
    /// that unit's factory once more and store the replacement
    /// computation. The unit records output and relaunch, the round ends,
    /// and the next round starts just past this unit. The merger yields
    /// `v`, returned unchanged.
    pub fn note_ready(&mut self, v: T) -> (out: T)
        requires
            merger_wf(old(self)@),
            old(self)@.units.len() > 0,
            old(self)@.units[scan_pos(old(self)@)].running,
            old(self)@.units[scan_pos(old(self)@)].spawns < u64::MAX,
        ensures
            out == v,
            final(self)@ == ready_tr(old(self)@, v),
            merger_wf(final(self)@),
    {
        let n = self.units.len();
        let pos = if self.scanned < n - self.cursor {
            self.cursor + self.scanned
        } else {
            self.scanned - (n - self.cursor)
        };
        let unit = &mut self.units[pos];
        let out = unit.complete(v);
        self.cursor = if pos + 1 == n {
            0
        } else {
            pos + 1
        };
        self.scanned = 0;
        proof {
            assert(final(self)@.units =~= ready_tr(old(self)@, v).units);
        }
        out
    }
}

/// Accumulates restartable units; consumed by [`RepeatsBuilder::finish`]
/// into a [`Repeats`]. Its view is the sequence of unit states gathered
/// so far.
pub struct RepeatsBuilder<T> {
    units: Vec<Repeat<T>>,
}

impl<T> View for RepeatsBuilder<T> {
    type V = Seq<TaskState<T>>;

    closed spec fn view(&self) -> Seq<TaskState<T>> {
        self.units@.map_values(|u: Repeat<T>| u@)
    }
}

/// Create an empty builder for a set of restartable units.
pub fn repeats<T>() -> (b: RepeatsBuilder<T>)
    ensures
        b@ == Seq::<TaskState<T>>::empty(),
{
    let b = RepeatsBuilder { units: Vec::new() };
    proof {
        assert(b@ =~= Seq::<TaskState<T>>::empty());
    }
    b
}

impl<T> RepeatsBuilder<T> {
    /// Append one more independent restartable unit; the driver pairs it
    /// with the factory it will launch computations from. Returns the
    /// builder so additions chain.
    #[must_use]
    pub fn add(self) -> (b: Self)
        ensures
            b@ == self@.push(fresh_task::<T>()),
    {
        let mut units = self.units;
        units.push(Repeat::new());
        let b = RepeatsBuilder { units };
        proof {
            assert(b@ =~= self@.push(fresh_task::<T>()));
        }
        b
    }

    /// Finalize the building process: the merger owns exactly the units
    /// added so far, in order, with the rotation starting at the first.
    #[must_use]
    pub fn finish(self) -> (m: Repeats<T>)
        requires
            forall|j: int| 0 <= j < self@.len() ==> task_wf(#[trigger] self@[j]),
        ensures
            m@ == (MergerState { units: self@, cursor: 0, scanned: 0 }),
            merger_wf(m@),
    {
        Repeats { units: self.units, cursor: 0, scanned: 0 }
    }
}

/// A merger fresh out of [`RepeatsBuilder::finish`]: `u` units, none of
/// them launched, the rotation at the first unit.
pub open spec fn fresh_merger<T>(u: nat) -> MergerState<T> {
    MergerState { units: Seq::new(u, |j: int| fresh_task::<T>()), cursor: 0, scanned: 0 }
}

/// The merger after its launch round: every unit's first computation is
/// in flight, the rotation back at the first unit.
pub open spec fn started_merger<T>(u: nat) -> MergerState<T> {
    MergerState { units: Seq::new(u, |j: int| started(fresh_task::<T>())), cursor: 0, scanned: 0 }
}

/// `t` consecutive launch micro-steps.
pub open spec fn spawn_steps<T>(m: MergerState<T>, t: nat) -> MergerState<T>
    decreases t,
{
    if t == 0 {
        m
    } else {
        spawned_tr(spawn_steps(m, (t - 1) as nat))
    }
}

/// The first top-level poll of a fresh merger is one launch round: each
/// unit in turn gets its computation launched, and after `u` micro-steps
/// the round is over (the poll reports "not yet available") with every
/// unit in flight and the rotation back at the start.
pub proof fn lemma_launch_round<T>(u: nat)
    requires
        u > 0,
    ensures
        spawn_steps(fresh_merger::<T>(u), u) == started_merger::<T>(u),
        round_over(spawn_steps(fresh_merger::<T>(u), (u - 1) as nat)),
{
    lemma_launch_round_partial::<T>(u, u);
    assert(spawn_steps(fresh_merger::<T>(u), u) =~= started_merger::<T>(u));
    lemma_launch_round_partial::<T>(u, (u - 1) as nat);
}

/// Helper for [`lemma_launch_round`]: the state in the middle of the
/// launch round, after `t` of the `u` micro-steps.
proof fn lemma_launch_round_partial<T>(u: nat, t: nat)
    requires
        0 < u,
        t <= u,
    ensures
        spawn_steps(fresh_merger::<T>(u), t) == (MergerState {
            units: Seq::new(
                u,
                |j: int|
                    if j < t {
                        started(fresh_task::<T>())
                    } else {
                        fresh_task::<T>()
                    },
            ),
            cursor: 0,
            scanned: if t == u {
                0int
            } else {
                t as int
            },
        }),
    decreases t,
{
    if t == 0 {
        assert(spawn_steps(fresh_merger::<T>(u), 0) =~= MergerState {
            units: Seq::new(
                u,
                |j: int|
                    if j < 0 {
                        started(fresh_task::<T>())
                    } else {
                        fresh_task::<T>()
                    },
            ),
            cursor: 0,
            scanned: 0,
        });
    } else {
        lemma_launch_round_partial::<T>(u, (t - 1) as nat);
        assert(spawn_steps(fresh_merger::<T>(u), t) =~= MergerState {
            units: Seq::new(
                u,
                |j: int|
                    if j < t {
                        started(fresh_task::<T>())
                    } else {
                        fresh_task::<T>()
                    },
            ),
            cursor: 0,
            scanned: if t == u {
                0int
            } else {
                t as int
            },
        });
    }
}

/// The merger after its launch round and `k` further top-level polls,
/// when every unit's computation completes immediately — unit `j` always
/// with `vals[j]`. Each such poll is exactly one completion micro-step at
/// the cursor: the scan starts there, and the unit there is ready.
pub open spec fn rotation_run<T>(vals: Seq<T>, k: nat) -> MergerState<T>
    decreases k,
{
    if k == 0 {
        started_merger::<T>(vals.len())
    } else {
        let prev = rotation_run(vals, (k - 1) as nat);
        ready_tr(prev, vals[prev.cursor])
    }
}

/// The values those `k` polls yield, in order.
pub open spec fn rotation_yields<T>(vals: Seq<T>, k: nat) -> Seq<T>
    decreases k,
{
    if k == 0 {
        Seq::empty()
    } else {
        let prev = rotation_run(vals, (k - 1) as nat);
        rotation_yields(vals, (k - 1) as nat).push(vals[prev.cursor])
    }
}

/// How many of the yield indices below `k` fall on unit `j` under a
/// rotation over `u` units: the indices `i < k` with `i % u == j`.
pub open spec fn rotation_count(k: nat, u: nat, j: int) -> nat
    decreases k,
{
    if k == 0 || u == 0 {
        0
    } else {
        rotation_count((k - 1) as nat, u, j) + if (k - 1) as int % (u as int) == j {
            1nat
        } else {
            0nat
        }
    }
}

/// Steps the remainder forward: `(k+1) % u` in terms of `k % u`.
proof fn lemma_mod_step(k: nat, u: nat)
    requires
        u > 0,
    ensures
        (k as int + 1) % (u as int) == if k as int % (u as int) + 1 == u {
            0int
        } else {
            k as int % (u as int) + 1
        },
{
    let ui = u as int;
    let r = k as int % ui;
    let q = k as int / ui;
    vstd::arithmetic::div_mod::lemma_fundamental_div_mod(k as int, ui);
    if r + 1 == ui {
        vstd::arithmetic::div_mod::lemma_mod_multiples_vanish(q + 1, 0, ui);
        vstd::arithmetic::div_mod::lemma_small_mod(0, u);
        assert(ui * (q + 1) == ui * q + ui) by (nonlinear_arith);
        assert(k as int + 1 == ui * (q + 1) + 0);
    } else {
        vstd::arithmetic::div_mod::lemma_mod_multiples_vanish(q, r + 1, ui);
        vstd::arithmetic::div_mod::lemma_small_mod((r + 1) as nat, u);
        assert(k as int + 1 == ui * q + (r + 1));
    }
}

/// Fairness of the merge: when every unit completes immediately, the
/// merger serves the units in strict rotation. After `k` yields the
/// rotation stands at unit `k % u`, the `i`-th yield came from unit
/// `i % u`, and unit `j` has produced exactly one output per yield index
/// that falls on it — no unit is ever starved and no readiness is lost.
pub proof fn lemma_round_robin<T>(vals: Seq<T>, k: nat)
    requires
        vals.len() > 0,
    ensures
        ({
            let m = rotation_run(vals, k);
            let ys = rotation_yields(vals, k);
            let u = vals.len() as int;
            &&& merger_wf(m)
            &&& m.units.len() == vals.len()
            &&& forall|j: int| 0 <= j < vals.len() ==> (#[trigger] m.units[j]).running
            &&& m.scanned == 0
            &&& m.cursor == k as int % u
            &&& ys.len() == k
            &&& forall|i: int| 0 <= i < k ==> ys[i] == vals[i % u]
            &&& forall|j: int|
                0 <= j < u ==> (#[trigger] m.units[j]).outputs.len() == rotation_count(
                    k,
                    vals.len(),
                    j,
                )
        }),
    decreases k,
{
    let u = vals.len() as int;
    if k == 0 {
        vstd::arithmetic::div_mod::lemma_small_mod(0, vals.len());
    } else {
        lemma_round_robin(vals, (k - 1) as nat);
        let prev = rotation_run(vals, (k - 1) as nat);
        let m = rotation_run(vals, k);
        let r = prev.cursor;
        lemma_mod_step((k - 1) as nat, vals.len());
        assert forall|j: int|
            0 <= j < u implies (#[trigger] m.units[j]).outputs.len() == rotation_count(
            k,
            vals.len(),
            j,
        ) by {
            if j == r {
                assert(m.units[j] == completed(prev.units[r], vals[r]));
            } else {
                assert(m.units[j] == prev.units[j]);
            }
        }
        assert forall|i: int| 0 <= i < k implies rotation_yields(vals, k)[i] == vals[i % u] by {
            if i < k - 1 {
                assert(rotation_yields(vals, k)[i] == rotation_yields(vals, (k - 1) as nat)[i]);
            }
        }
    }
}

/// Helper for [`lemma_exact_fairness`]: within one whole turn of the
/// rotation — yield indices `u*q` up to `u*q + t` — unit `j` is served
/// exactly once if `j < t`, else not yet.
proof fn lemma_rotation_count_partial(u: nat, q: nat, t: nat, j: int)
    requires
        u > 0,
        t <= u,
    ensures
        rotation_count(u * q + t, u, j) == rotation_count(u * q, u, j) + if 0 <= j < t {
            1nat
        } else {
            0nat
        },
    decreases t,
{
    if t > 0 {
        lemma_rotation_count_partial(u, q, (t - 1) as nat, j);
        let b = u * q;
        vstd::arithmetic::div_mod::lemma_mod_multiples_vanish(q as int, (t - 1) as int, u as int);
        vstd::arithmetic::div_mod::lemma_small_mod((t - 1) as nat, u);
        assert((b + t - 1) as int % (u as int) == t - 1);
    }
}

/// Exact fairness: after any whole number `q` of turns of the rotation —
/// `u * q` yields of a merger over `u` immediately-ready units — every
/// unit has produced exactly `q` outputs.
pub proof fn lemma_exact_fairness<T>(vals: Seq<T>, q: nat, j: int)
    requires
        vals.len() > 0,
        0 <= j < vals.len(),
    ensures
        rotation_run(vals, vals.len() * q).units[j].outputs.len() == q,
{
    lemma_round_robin(vals, vals.len() * q);
    lemma_rotation_count_block(vals.len(), q, j);
}

/// Helper for [`lemma_exact_fairness`]: the yield indices below `u * q`
/// fall on each unit `j < u` exactly `q` times.
proof fn lemma_rotation_count_block(u: nat, q: nat, j: int)
    requires
        u > 0,
        0 <= j < u,
    ensures
        rotation_count(u * q, u, j) == q,
    decreases q,
{
    if q > 0 {
        lemma_rotation_count_block(u, (q - 1) as nat, j);
        let qi = q as int;
        let ui = u as int;
        assert(ui * qi == ui * (qi - 1) + ui && ui * (qi - 1) >= 0 && ui * qi >= 0)
            by (nonlinear_arith)
            requires
                qi >= 1,
                ui >= 1,
        ;
        lemma_rotation_count_partial(u, (q - 1) as nat, u, j);
    } else {
        assert(u * q == 0) by (nonlinear_arith)
            requires
                q == 0,
        ;
    }
}

} // verus!
