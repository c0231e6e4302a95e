//! One arm of a single-ledger experiment, request by request: which requests the ledger
//! serves, which upstream stages gating refuses, and the tally of what was served.
//!
//! The ledger itself does the work; what it answered is handed to the two steps here, which
//! decide what happens next and keep the count.
use vstd::prelude::*;
use std::collections::{HashMap, HashSet};

use crate::cache::{waiting_ns, Cost};
use crate::flow::FlowMode;
use crate::work::PHASES;

verus! {

broadcast use vstd::std_specs::hash::group_hash_axioms;

/// Service time and flow outcomes of one arm, in nanoseconds and counts.
///
/// `flow_started` counts upstream stages that ran, `flow_attempted` those that ran or were
/// refused under gating, `flow_done` and `flow_broken` downstream stages that completed a
/// started task or could not be served, and `flow_e2e` the upstream plus downstream service
/// time of the completed tasks.
#[derive(Clone, Copy, Debug)]
pub struct Tally {
    pub total: u64,
    pub transfer: u64,
    pub phase_ns: [u64; 4],
    pub kind_ns: [u64; 4],
    pub kind_ops: [u64; 4],
    pub served: [u64; 4],
    pub gated: u64,
    pub flow_started: u64,
    pub flow_attempted: u64,
    pub flow_done: u64,
    pub flow_broken: u64,
    pub flow_e2e: u64,
}

/// Every count of a tally is zero.
pub open spec fn is_zero(t: Tally) -> bool {
    &&& t.total == 0 && t.transfer == 0
    &&& t.phase_ns@ == seq![0u64, 0u64, 0u64, 0u64]
    &&& t.kind_ns@ == seq![0u64, 0u64, 0u64, 0u64]
    &&& t.kind_ops@ == seq![0u64, 0u64, 0u64, 0u64]
    &&& t.served@ == seq![0u64, 0u64, 0u64, 0u64]
    &&& t.gated == 0 && t.flow_started == 0 && t.flow_attempted == 0
    &&& t.flow_done == 0 && t.flow_broken == 0 && t.flow_e2e == 0
}

impl Default for Tally {
    fn default() -> (t: Self)
        ensures
            is_zero(t),
    {
        let t = Tally {
            total: 0,
            transfer: 0,
            phase_ns: [0u64; 4],
            kind_ns: [0u64; 4],
            kind_ops: [0u64; 4],
            served: [0u64; 4],
            gated: 0,
            flow_started: 0,
            flow_attempted: 0,
            flow_done: 0,
            flow_broken: 0,
            flow_e2e: 0,
        };
        assert(t.phase_ns@ =~= seq![0u64, 0u64, 0u64, 0u64]);
        assert(t.kind_ns@ =~= seq![0u64, 0u64, 0u64, 0u64]);
        assert(t.kind_ops@ =~= seq![0u64, 0u64, 0u64, 0u64]);
        assert(t.served@ =~= seq![0u64, 0u64, 0u64, 0u64]);
        t
    }
}

/// Sum of a per-class or per-phase table.
pub open spec fn sum4(s: Seq<u64>) -> int {
    s[0] + s[1] + s[2] + s[3]
}

/// The tally's totals agree: the total is the sum over classes and the sum over phases, and
/// every class was served exactly as often as it was counted.
pub open spec fn consistent(t: Tally) -> bool {
    &&& t.total == sum4(t.kind_ns@)
    &&& t.total == sum4(t.phase_ns@)
    &&& t.kind_ops@ == t.served@
}

/// A fresh tally is consistent, and serving keeps it so (`record_served`): at every point of a
/// run the total is the sum over classes and over phases, and each class's count is its
/// served count.
pub proof fn a_fresh_tally_is_consistent(t: Tally)
    requires
        is_zero(t),
    ensures
        consistent(t),
        sum4(t.served@) == 0,
{
}

/// A fan-out is never served, and a request is served only once it was let through: each
/// `Access` step is followed by at most one served request (`record_served` adds at most one
/// to the served count, and `gate_step` none), so the served count of a run never exceeds
/// the requests that are not fan-outs.
pub proof fn only_non_fan_outs_are_served(
    mode: FlowMode,
    hint_task: Option<u64>,
    completes: Option<u64>,
    can_satisfy: bool,
    gated: Set<u64>,
)
    ensures
        gate_of(mode, true, hint_task, completes, can_satisfy, gated) == Step::Skip,
        refused(mode, false, hint_task, can_satisfy) ==> gate_of(
            mode,
            false,
            hint_task,
            completes,
            can_satisfy,
            gated,
        ) == Step::Refuse,
{
}

/// The service totals and counts are as they were: the request was skipped, refused, or is
/// still pending.
pub open spec fn untouched(a: Tally, b: Tally) -> bool {
    &&& b.total == a.total
    &&& b.phase_ns == a.phase_ns
    &&& b.kind_ns == a.kind_ns
    &&& b.kind_ops == a.kind_ops
    &&& b.served == a.served
}

/// One request of class `k` in phase `p` was served in `ns`: its time is added to the total,
/// its class and its phase, and one to its class's counts, all within `u64`.
pub open spec fn served_once(a: Tally, b: Tally, k: int, p: int, ns: int) -> bool {
    &&& 0 <= k < 4 && 0 <= p < 4 && 0 <= ns
    &&& a.kind_ns[k] + ns <= u64::MAX && a.phase_ns[p] + ns <= u64::MAX
    &&& a.served[k] < u64::MAX
    &&& b.total == a.total + ns
    &&& b.kind_ns@ == a.kind_ns@.update(k, (a.kind_ns[k] + ns) as u64)
    &&& b.phase_ns@ == a.phase_ns@.update(p, (a.phase_ns[p] + ns) as u64)
    &&& b.kind_ops@ == a.kind_ops@.update(k, (a.kind_ops[k] + 1) as u64)
    &&& b.served@ == a.served@.update(k, (a.served[k] + 1) as u64)
}

/// What one request of a run does to the totals: nothing, or, when it is not a fan-out,
/// serve it once.
pub open spec fn request_step(a: Tally, b: Tally, fan_out: bool) -> bool {
    ||| untouched(a, b)
    ||| !fan_out && exists|k: int, p: int, ns: int| #[trigger] served_once(a, b, k, p, ns)
}

/// How many of the first `n` requests of a run are not fan-outs.
pub open spec fn non_fan_outs(fan_out: Seq<bool>, n: int) -> int
    decreases n,
{
    if n <= 0 {
        0
    } else {
        non_fan_outs(fan_out, n - 1) + if fan_out[n - 1] {
            0int
        } else {
            1
        }
    }
}

proof fn lemma_run_prefix(run: Seq<Tally>, fan_out: Seq<bool>, n: int)
    requires
        run.len() == fan_out.len() + 1,
        0 <= n <= fan_out.len(),
        is_zero(run[0]),
        forall|i: int|
            0 <= i < fan_out.len() ==> #[trigger] request_step(run[i], run[i + 1], fan_out[i]),
    ensures
        consistent(run[n]),
        sum4(run[n].served@) <= non_fan_outs(fan_out, n),
    decreases n,
{
    if n > 0 {
        lemma_run_prefix(run, fan_out, n - 1);
        let i = n - 1;
        let a = run[i];
        let b = run[i + 1];
        assert(request_step(run[i], run[i + 1], fan_out[i]));
        assert(b == run[n]);
        if !untouched(a, b) {
            let (k, p, ns) = choose|k: int, p: int, ns: int| #[trigger] served_once(a, b, k, p, ns);
            serving_keeps_the_tally_consistent(a, b, k, p, ns);
            assert(sum4(b.served@) == sum4(a.served@) + 1);
        }
    }
}

/// A whole run keeps its tally: from a fresh tally, whatever each request does, the total is
/// at every point the sum over classes and the sum over phases and each class's count is its
/// served count, and a run never serves more requests than it holds requests that are not
/// fan-outs; a run with no request serves nothing.
pub proof fn a_run_keeps_its_tally(run: Seq<Tally>, fan_out: Seq<bool>)
    requires
        run.len() == fan_out.len() + 1,
        is_zero(run[0]),
        forall|i: int|
            0 <= i < fan_out.len() ==> #[trigger] request_step(run[i], run[i + 1], fan_out[i]),
    ensures
        forall|i: int| 0 <= i < run.len() ==> #[trigger] consistent(run[i]),
        sum4(run.last().served@) <= non_fan_outs(fan_out, fan_out.len() as int),
        fan_out.len() == 0 ==> sum4(run.last().served@) == 0 && run.last().total == 0,
{
    assert forall|i: int| 0 <= i < run.len() implies #[trigger] consistent(run[i]) by {
        lemma_run_prefix(run, fan_out, i);
    }
    lemma_run_prefix(run, fan_out, fan_out.len() as int);
}

/// Gating refuses only what it must: an upstream stage is refused exactly when gating is on,
/// the request announces a downstream stage, it is not a fan-out, and the ledger could not
/// make that stage's state resident. In particular a request whose downstream state can be
/// made resident is never refused, and a request that is neither a fan-out nor the
/// downstream stage of a task is then served.
pub proof fn gating_refuses_only_the_unsatisfiable(
    mode: FlowMode,
    gang: bool,
    hint_task: Option<u64>,
    completes: Option<u64>,
    can_satisfy: bool,
    gated: Set<u64>,
)
    ensures
        (gate_of(mode, gang, hint_task, completes, can_satisfy, gated) == Step::Refuse) <==> (!gang
            && hint_task is Some && mode == FlowMode::Gate && !can_satisfy),
        can_satisfy ==> gate_of(mode, gang, hint_task, completes, can_satisfy, gated)
            != Step::Refuse,
        !gang && completes is None && (can_satisfy || hint_task is None || mode
            != FlowMode::Gate) ==> gate_of(mode, gang, hint_task, completes, can_satisfy, gated)
            == Step::Access,
        gang ==> gate_of(mode, gang, hint_task, completes, can_satisfy, gated) == Step::Skip,
{
}

/// What the ledger does with one request before touching any state.
#[derive(Clone, Copy, PartialEq, Eq, Debug, Structural)]
pub enum Step {
    /// Not this ledger's request: a fan-out, or the downstream stage of a refused task.
    Skip,
    /// Gating refuses the upstream stage, and with it the task.
    Refuse,
    /// Serve it.
    Access,
}

/// Whether an upstream stage is refused: gating is on, the request announces a
/// downstream stage, and that stage's state could not be made resident.
pub open spec fn refused(
    mode: FlowMode,
    gang: bool,
    hint_task: Option<u64>,
    can_satisfy: bool,
) -> bool {
    !gang && hint_task is Some && mode == FlowMode::Gate && !can_satisfy
}

/// Whether the request is the downstream stage of a task refused under gating.
pub open spec fn cancelled(
    mode: FlowMode,
    gang: bool,
    hint_task: Option<u64>,
    completes: Option<u64>,
    can_satisfy: bool,
    gated: Set<u64>,
) -> bool {
    !gang && !refused(mode, gang, hint_task, can_satisfy) && completes is Some && gated.contains(
        completes->0,
    )
}

/// The step for one request, given the tasks refused so far.
pub open spec fn gate_of(
    mode: FlowMode,
    gang: bool,
    hint_task: Option<u64>,
    completes: Option<u64>,
    can_satisfy: bool,
    gated: Set<u64>,
) -> Step {
    if gang {
        Step::Skip
    } else if refused(mode, gang, hint_task, can_satisfy) {
        Step::Refuse
    } else if cancelled(mode, gang, hint_task, completes, can_satisfy, gated) {
        Step::Skip
    } else {
        Step::Access
    }
}

/// Decide what one request gets before the ledger is touched. A fan-out is skipped, since a
/// single ledger has no second node to place it across. Under `Gate`, an upstream stage
/// whose downstream state could not be made resident is refused, its task recorded as
/// refused and counted as attempted; the downstream stage of a refused task is then skipped,
/// once, so the work that refusing saves is really not done. `can_satisfy` is what the ledger
/// answered for the request's downstream state; it matters only to a gated upstream stage.
pub fn gate_step(
    mode: FlowMode,
    gang: bool,
    hint_task: Option<u64>,
    completes: Option<u64>,
    can_satisfy: bool,
    gated: &mut HashSet<u64>,
    t: &mut Tally,
) -> (s: Step)
    requires
        refused(mode, gang, hint_task, can_satisfy) ==> old(t).gated < u64::MAX
            && old(t).flow_attempted < u64::MAX,
    ensures
        s == gate_of(mode, gang, hint_task, completes, can_satisfy, old(gated)@),
        final(gated)@ == if s == Step::Refuse {
            old(gated)@.insert(hint_task->0)
        } else if cancelled(mode, gang, hint_task, completes, can_satisfy, old(gated)@) {
            old(gated)@.remove(completes->0)
        } else {
            old(gated)@
        },
        final(t).gated == old(t).gated + if s == Step::Refuse {
            1int
        } else {
            0
        },
        final(t).flow_attempted == old(t).flow_attempted + if s == Step::Refuse {
            1int
        } else {
            0
        },
        final(t).total == old(t).total,
        final(t).transfer == old(t).transfer,
        final(t).phase_ns == old(t).phase_ns,
        final(t).kind_ns == old(t).kind_ns,
        final(t).kind_ops == old(t).kind_ops,
        final(t).served == old(t).served,
        final(t).flow_started == old(t).flow_started,
        final(t).flow_done == old(t).flow_done,
        final(t).flow_broken == old(t).flow_broken,
        final(t).flow_e2e == old(t).flow_e2e,
        untouched(*old(t), *final(t)),
{
    if gang {
        return Step::Skip;
    }
    if let Some(task) = hint_task {
        if mode == FlowMode::Gate && !can_satisfy {
            gated.insert(task);
            t.gated = t.gated + 1;
            t.flow_attempted = t.flow_attempted + 1;
            return Step::Refuse;
        }
    }
    if let Some(task) = completes {
        if gated.remove(&task) {
            return Step::Skip;
        }
    }
    Step::Access
}

/// The upstream service time recorded for the task a request completes, if it was started.
pub open spec fn upstream_of(started: Map<u64, u64>, completes: Option<u64>) -> Option<u64> {
    if completes is Some && started.contains_key(completes->0) {
        Some(started[completes->0])
    } else {
        None
    }
}

/// Whether recording a served request keeps every count within `u64`.
pub open spec fn record_fits(
    t: Tally,
    started: Map<u64, u64>,
    kind: int,
    phase: int,
    hint_task: Option<u64>,
    completes: Option<u64>,
    c: Cost,
) -> bool {
    let up = upstream_of(started, completes);
    let ns = waiting_ns(c);
    &&& (up is Some && c.pending) ==> t.flow_broken < u64::MAX
    &&& (up is Some && !c.pending) ==> t.flow_done < u64::MAX && t.flow_e2e + up->0 + ns
        <= u64::MAX
    &&& !c.pending ==> {
        &&& ns <= u64::MAX
        &&& t.total + ns <= u64::MAX
        &&& t.transfer + c.transfer_ns <= u64::MAX
        &&& t.phase_ns[phase] + ns <= u64::MAX
        &&& t.kind_ns[kind] + ns <= u64::MAX
        &&& t.kind_ops[kind] < u64::MAX
        &&& t.served[kind] < u64::MAX
        &&& hint_task is Some ==> t.flow_started < u64::MAX && t.flow_attempted < u64::MAX
    }
}

/// Whether recording a served request keeps every count within `u64`.
pub fn can_record(
    t: &Tally,
    started: &HashMap<u64, u64>,
    kind: usize,
    phase: usize,
    hint_task: Option<u64>,
    completes: Option<u64>,
    c: &Cost,
) -> (ok: bool)
    requires
        kind < 4,
        phase < PHASES,
    ensures
        ok == record_fits(*t, started@, kind as int, phase as int, hint_task, completes, *c),
{
    let up: Option<u64> = match completes {
        Some(task) => match started.get(&task) {
            Some(v) => Some(*v),
            None => None,
        },
        None => None,
    };
    assert(up == upstream_of(started@, completes));
    let w1 = c.transfer_ns.checked_add(c.recompute_ns);
    let w2 = match w1 {
        Some(a) => a.checked_add(c.decide_ns),
        None => None,
    };
    let w3 = match w2 {
        Some(a) => a.checked_add(c.queue_ns),
        None => None,
    };
    let w = match w3 {
        Some(a) => a.checked_add(c.dispatch_ns),
        None => None,
    };
    if c.pending {
        return match up {
            Some(_) => t.flow_broken < u64::MAX,
            None => true,
        };
    }
    let ns = match w {
        Some(ns) => ns,
        None => {
            return false;
        },
    };
    let flows_ok = match up {
        Some(u) => t.flow_done < u64::MAX && match t.flow_e2e.checked_add(u) {
            Some(a) => a.checked_add(ns).is_some(),
            None => false,
        },
        None => true,
    };
    let hint_ok = match hint_task {
        Some(_) => t.flow_started < u64::MAX && t.flow_attempted < u64::MAX,
        None => true,
    };
    flows_ok && hint_ok && t.total.checked_add(ns).is_some() && t.transfer.checked_add(
        c.transfer_ns,
    ).is_some() && t.phase_ns[phase].checked_add(ns).is_some() && t.kind_ns[kind].checked_add(
        ns,
    ).is_some() && t.kind_ops[kind] < u64::MAX && t.served[kind] < u64::MAX
}

/// Serving a request adds its service time to the total, to its class and to its phase, and
/// one to its class's count, so a consistent tally stays consistent.
pub proof fn serving_keeps_the_tally_consistent(
    before: Tally,
    after: Tally,
    kind: int,
    phase: int,
    ns: int,
)
    requires
        0 <= kind < 4,
        0 <= phase < 4,
        0 <= ns,
        consistent(before),
        after.total == before.total + ns,
        after.kind_ns@ == before.kind_ns@.update(kind, (before.kind_ns[kind] + ns) as u64),
        after.phase_ns@ == before.phase_ns@.update(phase, (before.phase_ns[phase] + ns) as u64),
        before.kind_ns[kind] + ns <= u64::MAX,
        before.phase_ns[phase] + ns <= u64::MAX,
        before.served[kind] < u64::MAX,
        after.kind_ops@ == before.kind_ops@.update(kind, (before.kind_ops[kind] + 1) as u64),
        after.served@ == before.served@.update(kind, (before.served[kind] + 1) as u64),
    ensures
        consistent(after),
{
    assert(sum4(after.kind_ns@) == sum4(before.kind_ns@) + ns);
    assert(sum4(after.phase_ns@) == sum4(before.phase_ns@) + ns);
    assert(after.kind_ops@ =~= after.served@);
}

/// Record a request the ledger has tried to serve, with `c` the cost it charged.
///
/// If the request completes a started task, the task's downstream stage either broke (the
/// request is still pending) or completed, adding the upstream and downstream service time
/// to the end-to-end time; either way the task is no longer open. A pending request is then
/// done with. A served one that starts a task opens it with its own service time, counted
/// started and attempted, and asks for its downstream state to be announced unless flows are
/// invisible; its service time is added to the totals of its class and phase.
pub fn record_served(
    t: &mut Tally,
    started: &mut HashMap<u64, u64>,
    mode: FlowMode,
    kind: usize,
    phase: usize,
    hint_task: Option<u64>,
    completes: Option<u64>,
    c: &Cost,
) -> (announce: bool)
    requires
        kind < 4,
        phase < PHASES,
        record_fits(*old(t), old(started)@, kind as int, phase as int, hint_task, completes, *c),
    ensures
        ({
            let up = upstream_of(old(started)@, completes);
            let ns = waiting_ns(*c);
            let open = if up is Some {
                old(started)@.remove(completes->0)
            } else {
                old(started)@
            };
            &&& announce == (!c.pending && hint_task is Some && mode != FlowMode::Blind)
            &&& final(started)@ == if !c.pending && hint_task is Some {
                open.insert(hint_task->0, ns as u64)
            } else {
                open
            }
            &&& final(t).flow_broken == old(t).flow_broken + if up is Some && c.pending {
                1int
            } else {
                0
            }
            &&& final(t).flow_done == old(t).flow_done + if up is Some && !c.pending {
                1int
            } else {
                0
            }
            &&& final(t).flow_e2e == old(t).flow_e2e + if up is Some && !c.pending {
                up->0 + ns
            } else {
                0
            }
            &&& final(t).flow_started == old(t).flow_started + if !c.pending && hint_task is Some {
                1int
            } else {
                0
            }
            &&& final(t).flow_attempted == old(t).flow_attempted + if !c.pending
                && hint_task is Some {
                1int
            } else {
                0
            }
            &&& final(t).gated == old(t).gated
            &&& c.pending ==> {
                &&& final(t).total == old(t).total
                &&& final(t).transfer == old(t).transfer
                &&& final(t).phase_ns == old(t).phase_ns
                &&& final(t).kind_ns == old(t).kind_ns
                &&& final(t).kind_ops == old(t).kind_ops
                &&& final(t).served == old(t).served
            }
            &&& !c.pending ==> {
                &&& final(t).total == old(t).total + ns
                &&& final(t).transfer == old(t).transfer + c.transfer_ns
                &&& final(t).phase_ns@ == old(t).phase_ns@.update(
                    phase as int,
                    (old(t).phase_ns[phase as int] + ns) as u64,
                )
                &&& final(t).kind_ns@ == old(t).kind_ns@.update(
                    kind as int,
                    (old(t).kind_ns[kind as int] + ns) as u64,
                )
                &&& final(t).kind_ops@ == old(t).kind_ops@.update(
                    kind as int,
                    (old(t).kind_ops[kind as int] + 1) as u64,
                )
                &&& final(t).served@ == old(t).served@.update(
                    kind as int,
                    (old(t).served[kind as int] + 1) as u64,
                )
            }
        }),
        consistent(*old(t)) ==> consistent(*final(t)),
        request_step(*old(t), *final(t), false),
        sum4(final(t).served@) == sum4(old(t).served@) + if c.pending {
            0int
        } else {
            1
        },
{
    let ghost t0 = *t;
    let ghost s0 = started@;
    if let Some(task) = completes {
        let removed = started.remove(&task);
        proof {
            assert(removed == upstream_of(s0, completes));
        }
        if let Some(up) = removed {
            if c.pending {
                t.flow_broken = t.flow_broken + 1;
            } else {
                t.flow_done = t.flow_done + 1;
                t.flow_e2e = t.flow_e2e + up + c.total_ns();
            }
        }
    } else {
        assert(upstream_of(s0, completes) is None);
    }
    if c.pending {
        return false;
    }
    let ns = c.total_ns();
    let mut announce = false;
    if let Some(task) = hint_task {
        t.flow_started = t.flow_started + 1;
        t.flow_attempted = t.flow_attempted + 1;
        started.insert(task, ns);
        announce = mode != FlowMode::Blind;
    }
    t.served[kind] = t.served[kind] + 1;
    t.total = t.total + ns;
    t.transfer = t.transfer + c.transfer_ns;
    t.phase_ns[phase] = t.phase_ns[phase] + ns;
    t.kind_ns[kind] = t.kind_ns[kind] + ns;
    t.kind_ops[kind] = t.kind_ops[kind] + 1;
    proof {
        if consistent(t0) {
            serving_keeps_the_tally_consistent(t0, *t, kind as int, phase as int, ns as int);
        }
        assert(served_once(t0, *t, kind as int, phase as int, ns as int));
    }
    announce
}

} // verus!
