//! Compute units and the memory domains they reach.
use vstd::prelude::*;

verus! {

#[derive(Clone, Copy, PartialEq, Eq, Debug, Structural)]
pub enum UnitKind {
    Performance,
    Efficiency,
    Accelerator,
}

#[derive(Clone, Copy, PartialEq, Eq, Debug, Structural)]
pub enum DomainKind {
    /// Directly attached, load/store reachable.
    Dram,
    /// Device-attached; reachable only by DMA.
    Vram,
    /// Another socket or host: coherent over a fabric, or not at all.
    Remote,
}

#[derive(Clone, Copy, Debug)]
pub struct ComputeUnit {
    pub id: u8,
    pub kind: UnitKind,
    pub cluster: u8,
    /// Domain this unit reaches with no interconnect hop.
    pub home: u8,
}

#[derive(Clone, Copy, Debug)]
pub struct MemoryDomain {
    pub id: u8,
    pub kind: DomainKind,
    pub capacity: u64,
}

/// The first unit whose home is `domain`, or unit 0 when none is.
pub fn unit_in(units: &[ComputeUnit], domain: usize) -> (u: usize)
    ensures
        (exists|i: int| 0 <= i < units@.len() && units@[i].home == domain) ==> (u < units@.len()
            && units@[u as int].home == domain && forall|j: int|
            0 <= j < u ==> units@[j].home != domain),
        !(exists|i: int| 0 <= i < units@.len() && units@[i].home == domain) ==> u == 0,
{
    let mut i: usize = 0;
    while i < units.len()
        invariant
            i <= units@.len(),
            forall|j: int| 0 <= j < i ==> units@[j].home != domain,
        decreases units@.len() - i,
    {
        if units[i].home as usize == domain {
            return i;
        }
        i = i + 1;
    }
    0
}

} // verus!
