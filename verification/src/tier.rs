//! The memory tiers a node's state can occupy.
use vstd::prelude::*;

verus! {

/// Declared in eviction order: state falls from the accelerator to host memory to the spill
/// tier.
#[derive(Clone, Copy, PartialEq, Eq, Debug, Structural)]
pub enum Tier {
    Hbm,
    Ddr,
    Nvme,
}

} // verus!
