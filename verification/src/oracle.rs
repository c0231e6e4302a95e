//! The four-gap regret decomposition and the acquisition regime of a served request.
//!
//! `Regret` is signed and never clipped: a negative component is a real finding, such as a
//! heuristic that beat the model's own argmin, not an error to floor at zero.
use vstd::prelude::*;

use crate::cache::Cost;

verus! {

/// `charged(p) - R(o)`, split so each difference stays attributable to one cause:
///
/// - `execution` = `charged - R(p)`: a plan made on a stale view, executed against truth
/// - `heuristic` = `R(p) - R(m_b)`: the policy is not an argmin over its own belief
/// - `belief` = `R(m_b) - R(m_t)`: the argmin was taken over a stale view
/// - `model` = `R(m_t) - R(o)`: the score's cost function is not the realized charge
///
/// `total_with_displacement` is `total` against the oracle argmin when displacement is
/// priced as a realized cost too, always read beside `total` and never blended into it.
#[derive(Clone, Copy, Debug, PartialEq, Eq, Structural)]
pub struct Regret {
    pub total: i64,
    pub execution: i64,
    pub heuristic: i64,
    pub belief: i64,
    pub model: i64,
    pub total_with_displacement: i64,
}

/// A realized cost as a signed value, saturating at `i64::MAX`.
pub open spec fn signed(x: u64) -> int {
    if x <= i64::MAX {
        x as int
    } else {
        i64::MAX as int
    }
}

fn to_signed(x: u64) -> (i: i64)
    ensures
        i == signed(x),
{
    if x <= i64::MAX as u64 {
        x as i64
    } else {
        i64::MAX
    }
}

/// The four realized-cost picks turned into a `Regret`.
pub fn decompose(charged: u64, r_p: u64, r_mb: u64, r_mt: u64, r_o: u64, r_o_disp: u64) -> (r:
    Regret)
    ensures
        r.total == signed(charged) - signed(r_o),
        r.execution == signed(charged) - signed(r_p),
        r.heuristic == signed(r_p) - signed(r_mb),
        r.belief == signed(r_mb) - signed(r_mt),
        r.model == signed(r_mt) - signed(r_o),
        r.total_with_displacement == signed(charged) - signed(r_o_disp),
{
    let charged = to_signed(charged);
    let r_p = to_signed(r_p);
    let r_mb = to_signed(r_mb);
    let r_mt = to_signed(r_mt);
    let r_o = to_signed(r_o);
    let r_o_disp = to_signed(r_o_disp);
    Regret {
        total: charged - r_o,
        execution: charged - r_p,
        heuristic: r_p - r_mb,
        belief: r_mb - r_mt,
        model: r_mt - r_o,
        total_with_displacement: charged - r_o_disp,
    }
}

/// The four components always telescope to the total, whatever the picks.
pub proof fn decomposition_telescopes(r: Regret, charged: u64, r_p: u64, r_mb: u64, r_mt: u64, r_o: u64)
    requires
        r.total == signed(charged) - signed(r_o),
        r.execution == signed(charged) - signed(r_p),
        r.heuristic == signed(r_p) - signed(r_mb),
        r.belief == signed(r_mb) - signed(r_mt),
        r.model == signed(r_mt) - signed(r_o),
    ensures
        r.execution + r.heuristic + r.belief + r.model == r.total,
{
}

/// How a served request's state was acquired: one bucket per request, exclusive and
/// exhaustive over the requests served.
#[derive(Clone, Copy, PartialEq, Eq, Debug, Structural)]
pub enum Regime {
    /// Nothing had to be acquired and nothing queued.
    Resident,
    /// The largest cost was waiting for a decode slot.
    Wait,
    /// The largest cost was moving state over a link from a peer.
    Transfer,
    /// The largest cost was rebuilding state locally.
    Recompute,
}

pub const REGIME_COUNT: usize = 4;

/// Position of a regime in every per-regime table.
pub open spec fn regime_index(r: Regime) -> int {
    match r {
        Regime::Resident => 0,
        Regime::Wait => 1,
        Regime::Transfer => 2,
        Regime::Recompute => 3,
    }
}

impl Regime {
    pub const ALL: [Regime; 4] = [Regime::Resident, Regime::Wait, Regime::Transfer, Regime::Recompute];

    pub fn label(self) -> (s: &'static str)
        ensures
            s@ == match self {
                Regime::Resident => "resident"@,
                Regime::Wait => "wait"@,
                Regime::Transfer => "transfer"@,
                Regime::Recompute => "recompute"@,
            },
    {
        match self {
            Regime::Resident => "resident",
            Regime::Wait => "wait",
            Regime::Transfer => "transfer",
            Regime::Recompute => "recompute",
        }
    }

    pub fn idx(self) -> (i: usize)
        ensures
            i == regime_index(self),
            i < REGIME_COUNT,
    {
        match self {
            Regime::Resident => 0,
            Regime::Wait => 1,
            Regime::Transfer => 2,
            Regime::Recompute => 3,
        }
    }
}

/// The regime a charged cost falls in: the argmax of queueing, transfer and recompute, ties
/// broken in that order, and `Resident` when all three are zero.
pub open spec fn regime_of(queue_ns: u64, transfer_ns: u64, recompute_ns: u64) -> Regime {
    if queue_ns == 0 && transfer_ns == 0 && recompute_ns == 0 {
        Regime::Resident
    } else if queue_ns >= transfer_ns && queue_ns >= recompute_ns {
        Regime::Wait
    } else if transfer_ns >= recompute_ns {
        Regime::Transfer
    } else {
        Regime::Recompute
    }
}

/// Classify one served request from the cost already charged to it.
pub fn classify(cost: &Cost) -> (r: Regime)
    ensures
        r == regime_of(cost.queue_ns, cost.transfer_ns, cost.recompute_ns),
{
    if cost.queue_ns == 0 && cost.transfer_ns == 0 && cost.recompute_ns == 0 {
        return Regime::Resident;
    }
    if cost.queue_ns >= cost.transfer_ns && cost.queue_ns >= cost.recompute_ns {
        Regime::Wait
    } else if cost.transfer_ns >= cost.recompute_ns {
        Regime::Transfer
    } else {
        Regime::Recompute
    }
}

/// The regime names the largest of the three costs, and is `Resident` exactly when nothing
/// was acquired or queued.
pub proof fn regime_is_the_largest_term(q: u64, t: u64, c: u64)
    ensures
        (regime_of(q, t, c) == Regime::Resident) == (q == 0 && t == 0 && c == 0),
        regime_of(q, t, c) == Regime::Wait ==> q >= t && q >= c && q > 0,
        regime_of(q, t, c) == Regime::Transfer ==> t > q && t >= c,
        regime_of(q, t, c) == Regime::Recompute ==> c > q && c > t,
{
}

} // verus!
