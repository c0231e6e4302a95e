//! One record per placement decision.
use vstd::prelude::*;

use crate::blob::BlobKind;
use crate::oracle::{Regime, Regret};

verus! {

/// One decision's outcome, in nanoseconds and node indices.
///
/// `decided_by` is the index of the last score term whose inclusion changed the scored arm's
/// argmin, or `None` when the policy is not scored or nothing after acquisition moved it.
/// `service_ns` is the end-to-end cost charged at the chosen node.
#[derive(Clone, Copy, Debug)]
pub struct Span {
    /// This decision's position in the machine's own op counter.
    pub op: u64,
    /// Ledger class this decision bills against.
    pub class: BlobKind,
    /// The node the policy chose.
    pub node: usize,
    /// The node the realized-cost oracle would have chosen.
    pub oracle_node: usize,
    pub regret: Regret,
    pub regime: Regime,
    pub decided_by: Option<usize>,
    pub service_ns: u64,
}

} // verus!
