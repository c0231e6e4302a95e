//! Per-class budgets of a memory pool, what a request is charged, and the census of ledger
//! operations performed on the engine's behalf.
use vstd::prelude::*;

use crate::blob::{kind_at, kind_index, lemma_kind_index_bijective, BlobId, BlobKind, BlobMeta, KINDS};
use crate::own::{authority, authority_of, Authority, Question};
use crate::tier::Tier;

verus! {

/// How a pool ranks the state it would give up.
#[derive(Clone, Copy, PartialEq, Eq, Debug, Structural)]
pub enum Policy {
    /// Greedy-dual size-frequency: recompute cost per byte, weighted by use.
    Gdsf,
    /// Least recently used, the baseline.
    Lru,
    /// Furthest next use, from a reference stream known in advance. A diagnostic baseline
    /// that separates eviction quality from routing quality, never a deployable policy.
    Clairvoyant,
}

/// Whether a pool took a blob, or left it waiting for room.
#[derive(Clone, Copy, PartialEq, Eq, Debug, Structural)]
pub enum Admission {
    Admitted,
    Pending,
}

/// Classes whose hot copy lives on the accelerator when there is one.
pub open spec fn is_accelerated(kind: BlobKind) -> bool {
    kind == BlobKind::KvBlock || kind == BlobKind::WeightShard
}

/// Classes whose hot copy lives on the accelerator when there is one.
pub fn accelerated(kind: BlobKind) -> (a: bool)
    ensures
        a == is_accelerated(kind),
{
    match kind {
        BlobKind::KvBlock | BlobKind::WeightShard => true,
        BlobKind::Snapshot | BlobKind::ServiceHeap => false,
    }
}

/// The largest entry of a per-class band table.
pub open spec fn max_of(s: Seq<u8>) -> u8
    recommends
        s.len() == KINDS,
{
    let a = if s[0] >= s[1] { s[0] } else { s[1] };
    let b = if s[2] >= s[3] { s[2] } else { s[3] };
    if a >= b { a } else { b }
}

/// A quota's per-class tables as sequences indexed by `kind_index`.
pub struct QuotaView {
    pub band: Seq<u8>,
    pub floor: Seq<u64>,
    pub limit: Seq<u64>,
    pub hard: bool,
}

/// Per-class guarantees. A class at or below its floor is never reclaimed from; `hard`
/// additionally forbids growing past the floor, turning the pool into partitions.
///
/// `band` is the priority band per class: 0 is latency-critical, higher is more sacrificial.
/// `limit` is the soft ceiling `floor + slack`: a class may grow past it into free space but
/// may not preempt a more sacrificial band to get there. The tables and the flag are private,
/// so the per-class accessors and `is_hard` are the only way in.
#[derive(Clone, Copy, Debug)]
pub struct Quota {
    band: [u8; 4],
    floor: [u64; 4],
    limit: [u64; 4],
    hard: bool,
}

impl View for Quota {
    type V = QuotaView;

    closed spec fn view(&self) -> QuotaView {
        QuotaView { band: self.band@, floor: self.floor@, limit: self.limit@, hard: self.hard }
    }
}

impl Quota {
    /// The tables always have one entry per class.
    pub proof fn lemma_shape(&self)
        ensures
            self@.band.len() == KINDS,
            self@.floor.len() == KINDS,
            self@.limit.len() == KINDS,
    {
    }

    /// No floors, every class limited only by capacity, all in the given bands.
    pub fn open(capacity: u64, band: [u8; 4]) -> (q: Self)
        ensures
            q@.band == band@,
            q@.floor == Seq::new(KINDS as nat, |k: int| 0u64),
            q@.limit == Seq::new(KINDS as nat, |k: int| capacity),
            !q@.hard,
    {
        let q = Quota { band, floor: [0u64; 4], limit: [capacity; 4], hard: false };
        assert(q@.floor =~= Seq::new(KINDS as nat, |k: int| 0u64));
        assert(q@.limit =~= Seq::new(KINDS as nat, |k: int| capacity));
        q
    }

    /// A quota from per-class floors already computed from a capacity. The floors may sum to
    /// less than the capacity; the remainder is shared slack every class may grow into, so
    /// each soft limit is its floor plus the slack, and a hard limit is the floor itself.
    pub fn from_floors(capacity: u64, floor: [u64; 4], band: [u8; 4], hard: bool) -> (q: Self)
        requires
            floor[0] + floor[1] + floor[2] + floor[3] <= u64::MAX,
        ensures
            q@.band == band@,
            q@.floor == floor@,
            q@.hard == hard,
            forall|k: int|
                #![trigger q@.limit[k]]
                0 <= k < KINDS ==> q@.limit[k] == if hard {
                    floor[k] as int
                } else {
                    floor[k] + slack(capacity, floor@)
                },
    {
        let reserved: u64 = floor[0] + floor[1] + floor[2] + floor[3];
        let slack: u64 = capacity.saturating_sub(reserved);
        let mut limit: [u64; 4] = floor;
        if !hard {
            let mut k: usize = 0;
            while k < 4
                invariant
                    k <= 4,
                    reserved == floor[0] + floor[1] + floor[2] + floor[3],
                    slack == self::slack(capacity, floor@),
                    forall|j: int| 0 <= j < k ==> limit[j] == floor[j] + slack,
                    forall|j: int| k <= j < 4 ==> limit[j] == floor[j],
                decreases 4 - k,
            {
                assert(floor[k as int] <= reserved);
                limit[k] = floor[k] + slack;
                k = k + 1;
            }
        }
        Quota { band, floor, limit, hard }
    }

    /// The same quota applied to host memory beside an accelerator, where the accelerated
    /// classes are only ever offloaded copies. Those give up host bytes first: every one of
    /// them moves to the most sacrificial band the quota already has.
    pub fn offloaded(self) -> (q: Self)
        ensures
            q@.floor == self@.floor,
            q@.limit == self@.limit,
            q@.hard == self@.hard,
            q@.band.len() == KINDS,
            forall|k: int|
                #![trigger q@.band[k]]
                0 <= k < KINDS ==> q@.band[k] == if is_accelerated(kind_at(k)) {
                    max_of(self@.band)
                } else {
                    self@.band[k]
                },
    {
        let ghost orig = self;
        let mut q = self;
        let last = q.max_band();
        let mut i: usize = 0;
        while i < 4
            invariant
                i <= 4,
                last == max_of(orig.band@),
                q.floor == orig.floor,
                q.limit == orig.limit,
                q.hard == orig.hard,
                    forall|k: int|
                    0 <= k < i ==> q.band[k] == if is_accelerated(kind_at(k)) {
                        last
                    } else {
                        orig.band[k]
                    },
                forall|k: int| i <= k < 4 ==> q.band[k] == orig.band[k],
            decreases 4 - i,
        {
            let kind = BlobKind::at(i);
            if accelerated(kind) {
                q.set_band_engine(kind, last);
            }
            i = i + 1;
        }
        q
    }

    /// The one place the orchestrator writes an engine-allocated class's eviction priority
    /// rather than reading one.
    fn set_band_engine(&mut self, kind: BlobKind, band: u8)
        ensures
            final(self).floor == old(self).floor,
            final(self).limit == old(self).limit,
            final(self).hard == old(self).hard,
            final(self).band@ == old(self).band@.update(kind_index(kind), band),
    {
        let k = kind.idx();
        self.band[k] = band;
    }

    /// Whether every class is partitioned at its floor.
    pub fn is_hard(&self) -> (h: bool)
        ensures
            h == self@.hard,
    {
        self.hard
    }

    /// The most sacrificial band any class is in.
    pub fn max_band(&self) -> (b: u8)
        ensures
            b == max_of(self@.band),
            forall|k: int| 0 <= k < KINDS ==> self@.band[k] <= b,
            exists|k: int| 0 <= k < KINDS && self@.band[k] == b,
    {
        let a = if self.band[0] >= self.band[1] { self.band[0] } else { self.band[1] };
        let b = if self.band[2] >= self.band[3] { self.band[2] } else { self.band[3] };
        let m = if a >= b { a } else { b };
        assert(self@.band[0] <= m && self@.band[1] <= m);
        assert(self@.band[2] <= m && self@.band[3] <= m);
        if m == self.band[0] {
            assert(self@.band[0] == m);
        } else if m == self.band[1] {
            assert(self@.band[1] == m);
        } else if m == self.band[2] {
            assert(self@.band[2] == m);
        } else {
            assert(self@.band[3] == m);
        }
        m
    }

    /// A class's guaranteed floor. Split on `accelerated` so that reads of an
    /// engine-allocated class's floor stay separable from reads of an owned one.
    pub fn floor_of(&self, kind: BlobKind) -> (f: u64)
        ensures
            f == self@.floor[kind_index(kind)],
    {
        if accelerated(kind) {
            self.floor_of_engine(kind)
        } else {
            self.floor_of_owned(kind)
        }
    }

    fn floor_of_owned(&self, kind: BlobKind) -> (f: u64)
        ensures
            f == self.floor[kind_index(kind)],
    {
        self.floor[kind.idx()]
    }

    fn floor_of_engine(&self, kind: BlobKind) -> (f: u64)
        ensures
            f == self.floor[kind_index(kind)],
    {
        self.floor[kind.idx()]
    }

    /// A class's soft ceiling, split the same way as `floor_of`.
    pub fn limit_of(&self, kind: BlobKind) -> (l: u64)
        ensures
            l == self@.limit[kind_index(kind)],
    {
        if accelerated(kind) {
            self.limit_of_engine(kind)
        } else {
            self.limit_of_owned(kind)
        }
    }

    fn limit_of_owned(&self, kind: BlobKind) -> (l: u64)
        ensures
            l == self.limit[kind_index(kind)],
    {
        self.limit[kind.idx()]
    }

    fn limit_of_engine(&self, kind: BlobKind) -> (l: u64)
        ensures
            l == self.limit[kind_index(kind)],
    {
        self.limit[kind.idx()]
    }

    /// A class's priority band, split the same way as `floor_of`.
    pub fn band_of(&self, kind: BlobKind) -> (b: u8)
        ensures
            b == self@.band[kind_index(kind)],
    {
        if accelerated(kind) {
            self.band_of_engine(kind)
        } else {
            self.band_of_owned(kind)
        }
    }

    fn band_of_owned(&self, kind: BlobKind) -> (b: u8)
        ensures
            b == self.band[kind_index(kind)],
    {
        self.band[kind.idx()]
    }

    fn band_of_engine(&self, kind: BlobKind) -> (b: u8)
        ensures
            b == self.band[kind_index(kind)],
    {
        self.band[kind.idx()]
    }
}

/// Offloading moves classes into the most sacrificial band that already exists, so the
/// quota's most sacrificial band is unchanged, and the owned classes keep their bands.
pub proof fn offloading_keeps_the_band_range(before: Seq<u8>, after: Seq<u8>)
    requires
        before.len() == KINDS,
        after.len() == KINDS,
        forall|k: int|
            #![trigger after[k]]
            0 <= k < KINDS ==> after[k] == if is_accelerated(kind_at(k)) {
                max_of(before)
            } else {
                before[k]
            },
    ensures
        max_of(after) == max_of(before),
        after[1] == before[1],
        after[3] == before[3],
        after[0] == max_of(before),
        after[2] == max_of(before),
{
    assert(after[0] == max_of(before));
    assert(after[1] == before[1]);
    assert(after[2] == max_of(before));
    assert(after[3] == before[3]);
}

/// Under a soft quota every class may grow to its floor plus the shared slack, and under a
/// hard one exactly to its floor; either way no limit is below its floor.
pub proof fn limits_never_undercut_floors(capacity: u64, floor: Seq<u64>, hard: bool, k: int)
    requires
        floor.len() == KINDS,
        0 <= k < KINDS,
    ensures
        floor[k] <= (if hard { floor[k] as int } else { floor[k] + slack(capacity, floor) }),
{
}

/// Capacity left over once every floor is reserved, or zero if the floors exceed it.
pub open spec fn slack(capacity: u64, floor: Seq<u64>) -> u64 {
    let reserved = floor[0] + floor[1] + floor[2] + floor[3];
    if reserved <= capacity {
        (capacity - reserved) as u64
    } else {
        0
    }
}


/// Bytes a pool holds, in total and per class, against its capacity.
///
/// The byte accounting of a tier pool, kept apart from how the pool ranks what it holds:
/// `used` is always the sum of the per-class counts.
#[derive(Clone, Copy, Debug)]
pub struct Occupancy {
    capacity: u64,
    used: u64,
    by_kind: [u64; 4],
}

/// An occupancy as plain numbers.
pub struct OccupancyView {
    pub capacity: u64,
    pub used: u64,
    pub by_kind: Seq<u64>,
}

impl View for Occupancy {
    type V = OccupancyView;

    closed spec fn view(&self) -> OccupancyView {
        OccupancyView { capacity: self.capacity, used: self.used, by_kind: self.by_kind@ }
    }
}

/// Sum of a per-class table.
pub open spec fn total_of(s: Seq<u64>) -> int {
    s[0] + s[1] + s[2] + s[3]
}

/// Bytes a class holds above its floor, which is all a reclaim may take from it.
pub open spec fn burst_of(held: u64, floor: u64) -> int {
    if held > floor {
        held - floor
    } else {
        0
    }
}

/// What a pool could make room for without touching any floor: its free space plus every
/// class's burst above its floor, except service heaps, whose entries are typically pinned
/// while they serve.
pub open spec fn reclaimable_of(o: OccupancyView, q: QuotaView) -> int {
    free_of(o) + burst_of(o.by_kind[0], q.floor[0]) + burst_of(o.by_kind[1], q.floor[1])
        + burst_of(o.by_kind[2], q.floor[2])
}

/// Capacity not in use, or zero when over capacity.
pub open spec fn free_of(o: OccupancyView) -> int {
    if o.used <= o.capacity {
        o.capacity - o.used
    } else {
        0
    }
}

/// The most a class may hold: the whole capacity under a soft quota, the class's floor
/// (within capacity) under a hard one.
pub open spec fn ceiling_of(o: OccupancyView, q: QuotaView, kind: BlobKind) -> int {
    if q.hard {
        let f = q.floor[kind_index(kind)];
        if f <= o.capacity {
            f as int
        } else {
            o.capacity as int
        }
    } else {
        o.capacity as int
    }
}

/// What counts against that ceiling: the class's own bytes under a hard quota, everything
/// under a soft one.
pub open spec fn held_of(o: OccupancyView, q: QuotaView, kind: BlobKind) -> int {
    if q.hard {
        o.by_kind[kind_index(kind)] as int
    } else {
        o.used as int
    }
}

impl Occupancy {
    #[verifier::type_invariant]
    closed spec fn wf(&self) -> bool {
        self.used == self.by_kind[0] + self.by_kind[1] + self.by_kind[2] + self.by_kind[3]
    }

    /// An empty pool of the given capacity.
    pub fn new(capacity: u64) -> (o: Self)
        ensures
            o@.capacity == capacity,
            o@.used == 0,
            o@.by_kind == Seq::new(KINDS as nat, |k: int| 0u64),
    {
        let o = Occupancy { capacity, used: 0, by_kind: [0u64; 4] };
        assert(o@.by_kind =~= Seq::new(KINDS as nat, |k: int| 0u64));
        o
    }

    pub fn capacity(&self) -> (c: u64)
        ensures
            c == self@.capacity,
    {
        self.capacity
    }

    /// Bytes held in all: always the sum of the per-class counts.
    pub fn used(&self) -> (u: u64)
        ensures
            u == self@.used,
            u == total_of(self@.by_kind),
            self@.by_kind.len() == KINDS,
    {
        proof {
            use_type_invariant(self);
        }
        self.used
    }

    pub fn resident_bytes(&self, kind: BlobKind) -> (b: u64)
        ensures
            b == self@.by_kind[kind_index(kind)],
    {
        self.by_kind[kind.idx()]
    }

    pub fn over_capacity(&self) -> (o: bool)
        ensures
            o == (self@.used > self@.capacity),
    {
        self.used > self.capacity
    }

    pub fn free_bytes(&self) -> (f: u64)
        ensures
            f == free_of(self@),
    {
        self.capacity.saturating_sub(self.used)
    }

    /// Free space plus the burstable bytes that are actually reclaimable under `quota`.
    pub fn reclaimable(&self, quota: &Quota) -> (r: u64)
        ensures
            r == reclaimable_of(self@, quota@),
    {
        proof {
            use_type_invariant(self);
        }
        let mut burst: u64 = 0;
        let mut k: usize = 0;
        while k < 3
            invariant
                k <= 3,
                self.used == self.by_kind[0] + self.by_kind[1] + self.by_kind[2] + self.by_kind[3],
                burst <= self.by_kind[0] + self.by_kind[1] + self.by_kind[2],
                burst == if k == 0 {
                    0
                } else if k == 1 {
                    burst_of(self.by_kind[0], quota@.floor[0])
                } else if k == 2 {
                    burst_of(self.by_kind[0], quota@.floor[0]) + burst_of(
                        self.by_kind[1],
                        quota@.floor[1],
                    )
                } else {
                    burst_of(self.by_kind[0], quota@.floor[0]) + burst_of(
                        self.by_kind[1],
                        quota@.floor[1],
                    ) + burst_of(self.by_kind[2], quota@.floor[2])
                },
            decreases 3 - k,
        {
            let kind = BlobKind::at(k);
            let b = self.by_kind[k].saturating_sub(quota.floor_of(kind));
            burst = burst + b;
            k = k + 1;
        }
        self.free_bytes() + burst
    }

    /// The most `kind` may hold in this pool under `quota`.
    pub fn ceiling(&self, quota: &Quota, kind: BlobKind) -> (c: u64)
        ensures
            c == ceiling_of(self@, quota@, kind),
    {
        if quota.is_hard() {
            let f = quota.floor_of(kind);
            if f <= self.capacity {
                f
            } else {
                self.capacity
            }
        } else {
            self.capacity
        }
    }

    /// The bytes that count against `kind`'s ceiling.
    pub fn held(&self, quota: &Quota, kind: BlobKind) -> (h: u64)
        ensures
            h == held_of(self@, quota@, kind),
    {
        if quota.is_hard() {
            self.by_kind[kind.idx()]
        } else {
            self.used
        }
    }

    /// Would `bytes` more of `kind` fit under its ceiling with nothing evicted?
    pub fn fits(&self, quota: &Quota, kind: BlobKind, bytes: u64) -> (f: bool)
        ensures
            f == (held_of(self@, quota@, kind) + bytes <= ceiling_of(self@, quota@, kind)),
    {
        let held = self.held(quota, kind);
        let ceiling = self.ceiling(quota, kind);
        held <= ceiling && bytes <= ceiling - held
    }

    /// Account for `bytes` of `kind` newly resident.
    pub fn charge(&mut self, kind: BlobKind, bytes: u64)
        requires
            old(self)@.used + bytes <= u64::MAX,
        ensures
            final(self)@.capacity == old(self)@.capacity,
            final(self)@.used == old(self)@.used + bytes,
            final(self)@.by_kind == old(self)@.by_kind.update(
                kind_index(kind),
                (old(self)@.by_kind[kind_index(kind)] + bytes) as u64,
            ),
    {
        proof {
            use_type_invariant(&*self);
        }
        let k = kind.idx();
        let mut by_kind = self.by_kind;
        by_kind[k] = by_kind[k] + bytes;
        *self = Occupancy { capacity: self.capacity, used: self.used + bytes, by_kind };
    }

    /// Account for `bytes` of `kind` leaving, by eviction or removal.
    pub fn release(&mut self, kind: BlobKind, bytes: u64)
        requires
            bytes <= old(self)@.by_kind[kind_index(kind)],
        ensures
            final(self)@.capacity == old(self)@.capacity,
            final(self)@.used == old(self)@.used - bytes,
            final(self)@.by_kind == old(self)@.by_kind.update(
                kind_index(kind),
                (old(self)@.by_kind[kind_index(kind)] - bytes) as u64,
            ),
    {
        proof {
            use_type_invariant(&*self);
        }
        let k = kind.idx();
        let mut by_kind = self.by_kind;
        by_kind[k] = by_kind[k] - bytes;
        *self = Occupancy { capacity: self.capacity, used: self.used - bytes, by_kind };
    }

    /// Forget everything held, as when a pool is drained.
    pub fn clear(&mut self)
        ensures
            final(self)@.capacity == old(self)@.capacity,
            final(self)@.used == 0,
            final(self)@.by_kind == Seq::new(KINDS as nat, |k: int| 0u64),
    {
        *self = Occupancy { capacity: self.capacity, used: 0, by_kind: [0u64; 4] };
        assert(self@.by_kind =~= Seq::new(KINDS as nat, |k: int| 0u64));
    }
}

/// Whether class `k` may be preempted while reclaiming in band `b`: it sits in that band and
/// holds bytes above its floor.
pub open spec fn preemptible(o: OccupancyView, q: QuotaView, k: int, b: int) -> bool {
    q.band[k] == b && o.by_kind[k] > q.floor[k]
}

/// The classes probed in band `b`, in class order, each tagged with the band.
pub open spec fn band_probes(o: OccupancyView, q: QuotaView, b: int) -> Seq<(u8, BlobKind)> {
    let p0 = if preemptible(o, q, 0, b) { seq![(b as u8, kind_at(0))] } else { Seq::empty() };
    let p1 = if preemptible(o, q, 1, b) { seq![(b as u8, kind_at(1))] } else { Seq::empty() };
    let p2 = if preemptible(o, q, 2, b) { seq![(b as u8, kind_at(2))] } else { Seq::empty() };
    let p3 = if preemptible(o, q, 3, b) { seq![(b as u8, kind_at(3))] } else { Seq::empty() };
    p0 + p1 + p2 + p3
}

/// The probes of every band from `b` down to the most critical band 0.
pub open spec fn probes_from(o: OccupancyView, q: QuotaView, b: int) -> Seq<(u8, BlobKind)>
    decreases b + 1,
{
    if b < 0 {
        Seq::empty()
    } else {
        band_probes(o, q, b) + probes_from(o, q, b - 1)
    }
}

/// The order in which a pool under a soft quota looks for bytes to reclaim: the most
/// sacrificial band first, and within a band every class above its floor, in class order.
pub open spec fn preemption_order(o: OccupancyView, q: QuotaView) -> Seq<(u8, BlobKind)> {
    probes_from(o, q, max_of(q.band) as int)
}

/// Whether an admission of `want` may only recycle its own class's bytes: always under a
/// hard quota, and under a soft one once the class is at or over its soft limit.
pub open spec fn recycles_own(o: OccupancyView, q: QuotaView, want: BlobKind) -> bool {
    q.hard || o.by_kind[kind_index(want)] >= q.limit[kind_index(want)]
}

impl Occupancy {
    /// Whether making room for `want` may only take from `want`'s own entries.
    pub fn recycles_own(&self, quota: &Quota, want: BlobKind) -> (r: bool)
        ensures
            r == recycles_own(self@, quota@, want),
    {
        quota.is_hard() || self.by_kind[want.idx()] >= quota.limit_of(want)
    }

    fn band_probes(&self, quota: &Quota, b: u8) -> (g: Vec<(u8, BlobKind)>)
        ensures
            g@ == band_probes(self@, quota@, b as int),
    {
        let mut g: Vec<(u8, BlobKind)> = Vec::new();
        let mut k: usize = 0;
        while k < 4
            invariant
                k <= 4,
                g@ == (if k > 0 && preemptible(self@, quota@, 0, b as int) {
                    seq![(b, kind_at(0))]
                } else {
                    Seq::empty()
                }) + (if k > 1 && preemptible(self@, quota@, 1, b as int) {
                    seq![(b, kind_at(1))]
                } else {
                    Seq::empty()
                }) + (if k > 2 && preemptible(self@, quota@, 2, b as int) {
                    seq![(b, kind_at(2))]
                } else {
                    Seq::empty()
                }) + (if k > 3 && preemptible(self@, quota@, 3, b as int) {
                    seq![(b, kind_at(3))]
                } else {
                    Seq::empty()
                }),
            decreases 4 - k,
        {
            let kind = BlobKind::at(k);
            let ghost before = g@;
            if quota.band_of(kind) == b && self.by_kind[k] > quota.floor_of(kind) {
                g.push((b, kind));
            }
            proof {
                if k == 0 {
                    assert(g@ =~= (if preemptible(self@, quota@, 0, b as int) {
                        seq![(b, kind_at(0))]
                    } else {
                        Seq::<(u8, BlobKind)>::empty()
                    }) + Seq::<(u8, BlobKind)>::empty() + Seq::<(u8, BlobKind)>::empty()
                        + Seq::<(u8, BlobKind)>::empty());
                } else if k == 1 {
                    assert(before =~= before + Seq::<(u8, BlobKind)>::empty()
                        + Seq::<(u8, BlobKind)>::empty() + Seq::<(u8, BlobKind)>::empty());
                } else if k == 2 {
                    assert(before =~= before + Seq::<(u8, BlobKind)>::empty()
                        + Seq::<(u8, BlobKind)>::empty());
                } else {
                    assert(before =~= before + Seq::<(u8, BlobKind)>::empty());
                }
            }
            k = k + 1;
        }
        assert(g@ =~= band_probes(self@, quota@, b as int));
        g
    }

    /// Where to look for bytes to reclaim under a soft quota, in the order to look: every
    /// class above its floor, most sacrificial band first, each tagged with its band.
    pub fn preemption_order(&self, quota: &Quota) -> (plan: Vec<(u8, BlobKind)>)
        ensures
            plan@ == preemption_order(self@, quota@),
    {
        let top = quota.max_band();
        let mut plan: Vec<(u8, BlobKind)> = Vec::new();
        let mut next: u16 = top as u16 + 1;
        while next > 0
            invariant
                next <= top as u16 + 1,
                top == max_of(quota@.band),
                probes_from(self@, quota@, top as int) == plan@ + probes_from(
                    self@,
                    quota@,
                    next - 1,
                ),
            decreases next,
        {
            let b = (next - 1) as u8;
            let mut g = self.band_probes(quota, b);
            let ghost before = plan@;
            plan.append(&mut g);
            assert(probes_from(self@, quota@, b as int) == band_probes(self@, quota@, b as int)
                + probes_from(self@, quota@, b - 1));
            assert(plan@ + probes_from(self@, quota@, b - 1) =~= before + probes_from(
                self@,
                quota@,
                b as int,
            ));
            next = next - 1;
        }
        assert(plan@ =~= plan@ + probes_from(self@, quota@, -1));
        plan
    }
}

/// What an admission that is making room does next.
#[derive(Clone, Copy, PartialEq, Eq, Debug, Structural)]
pub enum Reclaim {
    /// The entry is larger than its class may ever hold here: refuse it.
    Never,
    /// It fits now: charge it.
    Fits,
    /// Only the class's own entries may make room: take the next of them.
    OwnClass,
    /// Preempt other classes, band by band in the preemption order.
    Preempt,
}

/// The next step of admitting `bytes` of `want`: refuse what exceeds the class's ceiling,
/// charge what fits, and otherwise recycle the class's own bytes or preempt others as
/// `recycles_own` says.
pub open spec fn reclaim_of(o: OccupancyView, q: QuotaView, want: BlobKind, bytes: u64) -> Reclaim {
    if bytes > ceiling_of(o, q, want) {
        Reclaim::Never
    } else if held_of(o, q, want) + bytes <= ceiling_of(o, q, want) {
        Reclaim::Fits
    } else if recycles_own(o, q, want) {
        Reclaim::OwnClass
    } else {
        Reclaim::Preempt
    }
}

impl Occupancy {
    /// The next step of admitting `bytes` of `want`, asked again after every victim leaves.
    pub fn reclaim(&self, quota: &Quota, want: BlobKind, bytes: u64) -> (r: Reclaim)
        ensures
            r == reclaim_of(self@, quota@, want, bytes),
    {
        if bytes > self.ceiling(quota, want) {
            Reclaim::Never
        } else if self.fits(quota, want, bytes) {
            Reclaim::Fits
        } else if self.recycles_own(quota, want) {
            Reclaim::OwnClass
        } else {
            Reclaim::Preempt
        }
    }
}

/// Where the band that starts at `start` in a preemption order ends: the first later position
/// in another band, or the end of the order.
pub fn band_end(order: &[(u8, BlobKind)], start: usize) -> (end: usize)
    requires
        start < order@.len(),
    ensures
        start < end <= order@.len(),
        forall|j: int| start <= j < end ==> #[trigger] order@[j].0 == order@[start as int].0,
        end < order@.len() ==> order@[end as int].0 != order@[start as int].0,
{
    let band = order[start].0;
    let mut end = start + 1;
    while end < order.len() && order[end].0 == band
        invariant
            start < end <= order@.len(),
            band == order@[start as int].0,
            forall|j: int| start <= j < end ==> #[trigger] order@[j].0 == band,
        decreases order@.len() - end,
    {
        end = end + 1;
    }
    end
}

/// Whether giving up an entry of `bytes` leaves class `kind` at or above its floor: the entry
/// fits within what the class holds above its guarantee.
pub open spec fn within_burst(o: OccupancyView, q: QuotaView, kind: BlobKind, bytes: u64) -> bool {
    o.by_kind[kind_index(kind)] >= q.floor[kind_index(kind)] + bytes
}

/// The rank of the entry a probe found, or zero when it found none.
pub open spec fn probe_rank(p: (BlobKind, Option<(u64, u64)>)) -> u64 {
    match p.1 {
        Some((rank, _)) => rank,
        None => 0,
    }
}

/// The size of the entry a probe found, or zero when it found none.
pub open spec fn probe_bytes(p: (BlobKind, Option<(u64, u64)>)) -> u64 {
    match p.1 {
        Some((_, bytes)) => bytes,
        None => 0,
    }
}

/// A probe its band may reclaim from: the class found an entry to give up, ranked and sized,
/// and the entry fits within the class's burst.
pub open spec fn offered(o: OccupancyView, q: QuotaView, p: (BlobKind, Option<(u64, u64)>)) -> bool {
    p.1 is Some && within_burst(o, q, p.0, probe_bytes(p))
}

/// `i` holds the probe to reclaim from: it is offered, no offered probe ranks lower, and every
/// earlier offered probe ranks strictly higher.
pub open spec fn cheapest_at(
    o: OccupancyView,
    q: QuotaView,
    probes: Seq<(BlobKind, Option<(u64, u64)>)>,
    i: int,
) -> bool {
    &&& 0 <= i < probes.len()
    &&& offered(o, q, probes[i])
    &&& forall|j: int|
        0 <= j < probes.len() && #[trigger] offered(o, q, probes[j]) ==> probe_rank(probes[i])
            <= probe_rank(probes[j])
    &&& forall|j: int|
        0 <= j < i && #[trigger] offered(o, q, probes[j]) ==> probe_rank(probes[j]) > probe_rank(probes[i])
}

/// At most one probe is the one to reclaim from.
pub proof fn cheapest_probe_is_unique(
    o: OccupancyView,
    q: QuotaView,
    probes: Seq<(BlobKind, Option<(u64, u64)>)>,
    i: int,
    j: int,
)
    requires
        cheapest_at(o, q, probes, i),
        cheapest_at(o, q, probes, j),
    ensures
        i == j,
{
    if i < j {
        assert(offered(o, q, probes[i]));
    } else if j < i {
        assert(offered(o, q, probes[j]));
    }
}

impl Occupancy {
    /// Whether giving up an entry of `bytes` keeps `kind` at or above its floor.
    pub fn within_burst(&self, quota: &Quota, kind: BlobKind, bytes: u64) -> (w: bool)
        ensures
            w == within_burst(self@, quota@, kind, bytes),
    {
        let held = self.by_kind[kind.idx()];
        let floor = quota.floor_of(kind);
        held >= floor && held - floor >= bytes
    }

    /// The class to reclaim from among one band's probes. Each probe is a class with the rank
    /// and size of the entry it would give up next, or none when it has nothing to give up.
    /// A class whose entry is larger than its burst is not offered, since taking the entry
    /// would push the class below its floor. Among the offered probes the lowest rank wins,
    /// the earliest on a tie; no class when none is offered. Ranks order entries as their
    /// eviction priorities do.
    pub fn cheapest_probe(
        &self,
        quota: &Quota,
        probes: &[(BlobKind, Option<(u64, u64)>)],
    ) -> (c: Option<BlobKind>)
        ensures
            c is None <==> forall|i: int|
                0 <= i < probes@.len() ==> !offered(self@, quota@, #[trigger] probes@[i]),
            c is Some ==> exists|i: int|
                cheapest_at(self@, quota@, probes@, i) && probes@[i].0 == c->0,
    {
        let ghost o = self@;
        let ghost q = quota@;
        let mut best: Option<(usize, u64)> = None;
        let mut i: usize = 0;
        while i < probes.len()
            invariant
                i <= probes@.len(),
                o == self@,
                q == quota@,
                best is None ==> forall|j: int| 0 <= j < i ==> !offered(o, q, #[trigger] probes@[j]),
                best is Some ==> {
                    let (at, rank) = best->0;
                    &&& at < i
                    &&& offered(o, q, probes@[at as int])
                    &&& probe_rank(probes@[at as int]) == rank
                    &&& forall|j: int|
                        0 <= j < i && #[trigger] offered(o, q, probes@[j]) ==> rank
                            <= probe_rank(probes@[j])
                    &&& forall|j: int|
                        0 <= j < at && #[trigger] offered(o, q, probes@[j]) ==> probe_rank(probes@[j])
                            > rank
                },
            decreases probes@.len() - i,
        {
            let (kind, found) = probes[i];
            if let Some((rank, bytes)) = found {
                if self.within_burst(quota, kind, bytes) {
                    let better = match best {
                        None => true,
                        Some((_, b)) => rank < b,
                    };
                    if better {
                        best = Some((i, rank));
                    }
                }
            }
            i = i + 1;
        }
        match best {
            None => None,
            Some((at, _)) => {
                assert(cheapest_at(o, q, probes@, at as int));
                Some(probes[at].0)
            },
        }
    }
}

proof fn lemma_band_probes(o: OccupancyView, q: QuotaView, b: int)
    requires
        0 <= b <= 255,
    ensures
        forall|i: int|
            0 <= i < band_probes(o, q, b).len() ==> {
                let p = #[trigger] band_probes(o, q, b)[i];
                &&& p.0 == b
                &&& 0 <= kind_index(p.1) < KINDS
                &&& preemptible(o, q, kind_index(p.1), b)
            },
        forall|k: int|
            0 <= k < KINDS && #[trigger] preemptible(o, q, k, b) ==> exists|i: int|
                0 <= i < band_probes(o, q, b).len() && band_probes(o, q, b)[i].1 == kind_at(k),
{
    let one = |k: int| -> Seq<(u8, BlobKind)>
        {
            if preemptible(o, q, k, b) {
                seq![(b as u8, kind_at(k))]
            } else {
                Seq::empty()
            }
        };
    let p0 = one(0);
    let p1 = one(1);
    let p2 = one(2);
    let p3 = one(3);
    let s = band_probes(o, q, b);
    assert(s == p0 + p1 + p2 + p3);
    assert forall|k: int| 0 <= k < KINDS && #[trigger] preemptible(o, q, k, b) implies exists|
        i: int,
    | 0 <= i < s.len() && s[i].1 == kind_at(k) by {
        if k == 0 {
            assert(s[0].1 == kind_at(0));
        } else if k == 1 {
            assert(s[p0.len() as int].1 == kind_at(1));
        } else if k == 2 {
            assert(s[(p0.len() + p1.len()) as int].1 == kind_at(2));
        } else {
            assert(s[(p0.len() + p1.len() + p2.len()) as int].1 == kind_at(3));
        }
    }
}

proof fn lemma_probes_from(o: OccupancyView, q: QuotaView, b: int)
    requires
        -1 <= b <= 255,
    ensures
        forall|i: int|
            0 <= i < probes_from(o, q, b).len() ==> {
                let p = #[trigger] probes_from(o, q, b)[i];
                &&& p.0 <= b
                &&& 0 <= kind_index(p.1) < KINDS
                &&& preemptible(o, q, kind_index(p.1), p.0 as int)
            },
        forall|i: int, j: int|
            0 <= i < j < probes_from(o, q, b).len() ==> #[trigger] probes_from(o, q, b)[i].0
                >= #[trigger] probes_from(o, q, b)[j].0,
        forall|k: int|
            0 <= k < KINDS && q.band[k] <= b && #[trigger] preemptible(o, q, k, q.band[k] as int)
                ==> exists|i: int|
                0 <= i < probes_from(o, q, b).len() && probes_from(o, q, b)[i].1 == kind_at(k),
    decreases b + 1,
{
    if b >= 0 {
        lemma_probes_from(o, q, b - 1);
        lemma_band_probes(o, q, b);
        let g = band_probes(o, q, b);
        let r = probes_from(o, q, b - 1);
        let s = probes_from(o, q, b);
        assert(s == g + r);
        assert forall|i: int| 0 <= i < s.len() implies {
            let p = #[trigger] s[i];
            &&& p.0 <= b
            &&& 0 <= kind_index(p.1) < KINDS
            &&& preemptible(o, q, kind_index(p.1), p.0 as int)
        } by {
            if i < g.len() {
                assert(s[i] == g[i]);
            } else {
                assert(s[i] == r[i - g.len()]);
            }
        }
        assert forall|i: int, j: int| 0 <= i < j < s.len() implies #[trigger] s[i].0
            >= #[trigger] s[j].0 by {
            if j < g.len() {
                assert(s[i] == g[i] && s[j] == g[j]);
            } else if i < g.len() {
                assert(s[i] == g[i] && s[j] == r[j - g.len()]);
            } else {
                assert(s[i] == r[i - g.len()] && s[j] == r[j - g.len()]);
            }
        }
        assert forall|k: int|
            0 <= k < KINDS && q.band[k] <= b && #[trigger] preemptible(o, q, k, q.band[k] as int)
            implies exists|i: int| 0 <= i < s.len() && s[i].1 == kind_at(k) by {
            if q.band[k] == b {
                assert(preemptible(o, q, k, b));
                let i = choose|i: int| 0 <= i < g.len() && g[i].1 == kind_at(k);
                assert(s[i] == g[i]);
            } else {
                let i = choose|i: int| 0 <= i < r.len() && r[i].1 == kind_at(k);
                assert(s[i + g.len()] == r[i]);
            }
        }
    }
}

/// Reclaim under a soft quota takes only from classes holding more than their floor: no
/// class is ever preempted at or below its guarantee, whatever the priority of what is
/// being admitted. Each probe names the band its class is in.
pub proof fn preemption_spares_floors(o: OccupancyView, q: QuotaView, i: int)
    requires
        0 <= i < preemption_order(o, q).len(),
    ensures
        ({
            let (b, kind) = preemption_order(o, q)[i];
            o.by_kind[kind_index(kind)] > q.floor[kind_index(kind)] && q.band[kind_index(kind)]
                == b
        }),
{
    lemma_probes_from(o, q, max_of(q.band) as int);
    let p = preemption_order(o, q)[i];
    assert(preemptible(o, q, kind_index(p.1), p.0 as int));
}

/// Reclaim looks at the most sacrificial band first: bands never rise along the order.
pub proof fn preemption_goes_most_sacrificial_first(o: OccupancyView, q: QuotaView, i: int, j: int)
    requires
        0 <= i < j < preemption_order(o, q).len(),
    ensures
        preemption_order(o, q)[i].0 >= preemption_order(o, q)[j].0,
{
    lemma_probes_from(o, q, max_of(q.band) as int);
    assert(preemption_order(o, q)[i].0 >= preemption_order(o, q)[j].0);
}

/// Nothing above its floor is out of reach: every such class is probed, whatever its band.
pub proof fn preemption_reaches_every_burst(o: OccupancyView, q: QuotaView, kind: BlobKind)
    requires
        q.band.len() == KINDS,
        o.by_kind[kind_index(kind)] > q.floor[kind_index(kind)],
    ensures
        exists|i: int|
            0 <= i < preemption_order(o, q).len() && preemption_order(o, q)[i].1 == kind,
{
    let k = kind_index(kind);
    lemma_probes_from(o, q, max_of(q.band) as int);
    assert(q.band[k] <= max_of(q.band));
    assert(preemptible(o, q, k, q.band[k] as int));
    let s = probes_from(o, q, max_of(q.band) as int);
    let i = choose|i: int| 0 <= i < s.len() && s[i].1 == kind_at(k);
    assert(kind_at(k) == kind);
    assert(0 <= i < preemption_order(o, q).len() && preemption_order(o, q)[i].1 == kind);
}

/// Floors are inviolable: giving up the entry a band's reclaim settles on leaves its class at
/// or above its floor and every other class as it was, so no class at or above its guarantee
/// is pushed below it by another's admission, whatever that admission's priority.
pub proof fn reclaim_never_breaks_a_floor(
    before: OccupancyView,
    after: OccupancyView,
    q: QuotaView,
    probes: Seq<(BlobKind, Option<(u64, u64)>)>,
    i: int,
)
    requires
        before.by_kind.len() == KINDS,
        cheapest_at(before, q, probes, i),
        after.by_kind == before.by_kind.update(
            kind_index(probes[i].0),
            (before.by_kind[kind_index(probes[i].0)] - probe_bytes(probes[i])) as u64,
        ),
    ensures
        after.by_kind[kind_index(probes[i].0)] >= q.floor[kind_index(probes[i].0)],
        forall|k: int|
            0 <= k < KINDS && k != kind_index(probes[i].0) ==> after.by_kind[k]
                == before.by_kind[k],
        forall|k: int|
            0 <= k < KINDS && before.by_kind[k] >= q.floor[k] ==> #[trigger] after.by_kind[k]
                >= q.floor[k],
{
    lemma_kind_index_bijective(probes[i].0, 0);
}

/// A hard quota never lets one class take another's bytes: an admission only ever recycles
/// its own class.
pub proof fn hard_quota_never_couples(o: OccupancyView, q: QuotaView, want: BlobKind)
    requires
        q.hard,
    ensures
        recycles_own(o, q, want),
{
}

/// Charging bytes and releasing them again leaves the accounting as it was.
pub proof fn charge_then_release_restores(
    before: OccupancyView,
    mid: OccupancyView,
    after: OccupancyView,
    kind: BlobKind,
    bytes: u64,
)
    requires
        before.by_kind.len() == KINDS,
        mid.capacity == before.capacity,
        mid.used == before.used + bytes,
        mid.by_kind == before.by_kind.update(
            kind_index(kind),
            (before.by_kind[kind_index(kind)] + bytes) as u64,
        ),
        before.by_kind[kind_index(kind)] + bytes <= u64::MAX,
        after.capacity == mid.capacity,
        after.used == mid.used - bytes,
        after.by_kind == mid.by_kind.update(
            kind_index(kind),
            (mid.by_kind[kind_index(kind)] - bytes) as u64,
        ),
    ensures
        after == before,
{
    assert(after.by_kind =~= before.by_kind);
}

/// A pool can always make room for at least its free space.
pub proof fn reclaimable_covers_free(o: OccupancyView, q: QuotaView)
    ensures
        reclaimable_of(o, q) >= free_of(o),
{
}

/// What a pool promises it can make room for never exceeds its capacity while it is within
/// capacity: only free space and bytes above floors are counted.
pub proof fn reclaimable_within_capacity(o: OccupancyView, q: QuotaView)
    requires
        o.by_kind.len() == KINDS,
        o.used == total_of(o.by_kind),
        o.used <= o.capacity,
    ensures
        reclaimable_of(o, q) <= o.capacity,
{
}

/// A pool within capacity that holds no service heap and guarantees no class a floor can
/// make room for its whole capacity: every byte it holds can be reclaimed.
pub proof fn an_unfloored_pool_without_service_heaps_can_reclaim_everything(
    o: OccupancyView,
    q: QuotaView,
)
    requires
        o.by_kind.len() == KINDS,
        q.floor.len() == KINDS,
        o.used == total_of(o.by_kind),
        o.used <= o.capacity,
        o.by_kind[kind_index(BlobKind::ServiceHeap)] == 0,
        forall|k: int| 0 <= k < KINDS ==> q.floor[k] == 0,
    ensures
        reclaimable_of(o, q) == o.capacity,
{
}

/// What a pool can reclaim counts every class but service heaps: charging bytes of any other
/// class above its floor, within capacity, moves them from free space into that class's
/// burst and leaves what can be reclaimed unchanged, while charging service-heap bytes takes
/// exactly those bytes away from it.
pub proof fn reclaim_counts_every_class_but_service_heaps(
    before: OccupancyView,
    after: OccupancyView,
    q: QuotaView,
    kind: BlobKind,
    bytes: u64,
)
    requires
        before.by_kind.len() == KINDS,
        before.used == total_of(before.by_kind),
        after.capacity == before.capacity,
        after.used == before.used + bytes,
        after.used <= after.capacity,
        after.by_kind == before.by_kind.update(
            kind_index(kind),
            (before.by_kind[kind_index(kind)] + bytes) as u64,
        ),
        before.by_kind[kind_index(kind)] >= q.floor[kind_index(kind)],
    ensures
        kind != BlobKind::ServiceHeap ==> reclaimable_of(after, q) == reclaimable_of(before, q),
        kind == BlobKind::ServiceHeap ==> reclaimable_of(after, q) == reclaimable_of(before, q)
            - bytes,
{
    let k = kind_index(kind);
    assert(before.by_kind[k] + bytes <= after.used);
    assert(after.by_kind[k] == before.by_kind[k] + bytes);
    assert(free_of(after) == free_of(before) - bytes);
    assert forall|j: int| 0 <= j < KINDS && j != k implies after.by_kind[j] == before.by_kind[j]
        by {}
    assert(burst_of(after.by_kind[k], q.floor[k]) == burst_of(before.by_kind[k], q.floor[k])
        + bytes);
}

/// A class that fits under its ceiling before an admission is still within it after the
/// bytes are charged.
pub proof fn charged_bytes_stay_under_the_ceiling(
    before: OccupancyView,
    after: OccupancyView,
    q: QuotaView,
    kind: BlobKind,
    bytes: u64,
)
    requires
        before.by_kind.len() == KINDS,
        held_of(before, q, kind) + bytes <= ceiling_of(before, q, kind),
        after.capacity == before.capacity,
        after.used == before.used + bytes,
        after.by_kind == before.by_kind.update(
            kind_index(kind),
            (before.by_kind[kind_index(kind)] + bytes) as u64,
        ),
    ensures
        held_of(after, q, kind) <= ceiling_of(after, q, kind),
        held_of(after, q, kind) == held_of(before, q, kind) + bytes,
{
}

/// Which of a node's two hot pools a class's usable copy lives in: the accelerator's when the
/// node has one and the class is accelerated, host memory otherwise. Never the spill tier.
pub open spec fn home_tier(split: bool, kind: BlobKind) -> Tier {
    if split && is_accelerated(kind) {
        Tier::Hbm
    } else {
        Tier::Ddr
    }
}

/// Which of a node's two hot pools a class's usable copy lives in.
pub fn tier_of(split: bool, kind: BlobKind) -> (t: Tier)
    ensures
        t == home_tier(split, kind),
{
    if split && accelerated(kind) {
        Tier::Hbm
    } else {
        Tier::Ddr
    }
}

/// Who answers `q` about `kind` on a node, with the node's tier resolved for the caller.
pub fn home_authority(split: bool, kind: BlobKind, q: Question) -> (a: Authority)
    ensures
        a == authority_of(kind, home_tier(split, kind), q),
{
    authority(kind, tier_of(split, kind), q)
}

/// A class's home is never the spill tier, and allocation authority at its home is the
/// engine's exactly for the accelerated classes, whether or not the node is split.
pub proof fn home_is_hot_and_authority_matches_acceleration(split: bool, kind: BlobKind)
    ensures
        home_tier(split, kind) != Tier::Nvme,
        (home_tier(split, kind) == Tier::Hbm) == (split && is_accelerated(kind)),
        (authority_of(kind, home_tier(split, kind), Question::Allocation) == Authority::Engine)
            == is_accelerated(kind),
{
}

/// Bytes a set of per-class needs would claim in each of a node's two hot pools:
/// `(accelerator, host)`.
pub open spec fn by_pool_of(split: bool, need: Seq<u64>) -> (int, int) {
    let h0 = if home_tier(split, kind_at(0)) == Tier::Hbm { need[0] as int } else { 0 };
    let h1 = if home_tier(split, kind_at(1)) == Tier::Hbm { need[1] as int } else { 0 };
    let h2 = if home_tier(split, kind_at(2)) == Tier::Hbm { need[2] as int } else { 0 };
    let h3 = if home_tier(split, kind_at(3)) == Tier::Hbm { need[3] as int } else { 0 };
    (h0 + h1 + h2 + h3, need[0] + need[1] + need[2] + need[3] - (h0 + h1 + h2 + h3))
}

/// Bytes a set of per-class needs would claim in each of a node's two hot pools.
pub fn by_pool(split: bool, need: &[u64; 4]) -> (p: (u64, u64))
    requires
        by_pool_of(split, need@).0 <= u64::MAX,
        by_pool_of(split, need@).1 <= u64::MAX,
    ensures
        p.0 == by_pool_of(split, need@).0,
        p.1 == by_pool_of(split, need@).1,
{
    let ghost up = |j: int| home_tier(split, kind_at(j)) == Tier::Hbm;
    let mut h: u64 = 0;
    let mut d: u64 = 0;
    let mut i: usize = 0;
    while i < 4
        invariant
            i <= 4,
            up == (|j: int| home_tier(split, kind_at(j)) == Tier::Hbm),
            by_pool_of(split, need@).0 <= u64::MAX,
            by_pool_of(split, need@).1 <= u64::MAX,
            h == (if i > 0 && up(0) { need[0] as int } else { 0 })
                + (if i > 1 && up(1) { need[1] as int } else { 0 })
                + (if i > 2 && up(2) { need[2] as int } else { 0 })
                + (if i > 3 && up(3) { need[3] as int } else { 0 }),
            d == (if i > 0 && !up(0) { need[0] as int } else { 0 })
                + (if i > 1 && !up(1) { need[1] as int } else { 0 })
                + (if i > 2 && !up(2) { need[2] as int } else { 0 })
                + (if i > 3 && !up(3) { need[3] as int } else { 0 }),
        decreases 4 - i,
    {
        let kind = BlobKind::at(i);
        if split && accelerated(kind) {
            h = h + need[i];
        } else {
            d = d + need[i];
        }
        i = i + 1;
    }
    (h, d)
}

/// Bytes of class `k` among the first `n` blobs that are not already held.
pub open spec fn class_need(blobs: Seq<(BlobId, BlobMeta)>, held: Seq<bool>, n: int, k: int) -> int
    decreases n,
{
    if n <= 0 {
        0
    } else {
        let counted = !held[n - 1] && kind_index(blobs[n - 1].1.kind) == k;
        class_need(blobs, held, n - 1, k) + if counted {
            blobs[n - 1].1.bytes as int
        } else {
            0int
        }
    }
}

proof fn lemma_class_need_grows(
    blobs: Seq<(BlobId, BlobMeta)>,
    held: Seq<bool>,
    a: int,
    b: int,
    k: int,
)
    requires
        0 <= a <= b,
    ensures
        0 <= class_need(blobs, held, a, k) <= class_need(blobs, held, b, k),
    decreases b,
{
    if a < b {
        lemma_class_need_grows(blobs, held, a, b - 1, k);
    } else if a > 0 {
        lemma_class_need_grows(blobs, held, a - 1, a - 1, k);
    }
}

/// Per-class bytes a set of blobs would claim, counting only those not already held:
/// `held` says, blob by blob, whether the blob is already resident.
pub fn need_of(blobs: &[(BlobId, BlobMeta)], held: &[bool]) -> (need: [u64; 4])
    requires
        held@.len() == blobs@.len(),
        forall|k: int|
            0 <= k < KINDS ==> class_need(blobs@, held@, blobs@.len() as int, k) <= u64::MAX,
    ensures
        forall|k: int|
            0 <= k < KINDS ==> #[trigger] need[k] == class_need(
                blobs@,
                held@,
                blobs@.len() as int,
                k,
            ),
{
    let mut need: [u64; 4] = [0u64; 4];
    let mut i: usize = 0;
    while i < blobs.len()
        invariant
            i <= blobs@.len(),
            held@.len() == blobs@.len(),
            forall|k: int|
                0 <= k < KINDS ==> class_need(blobs@, held@, blobs@.len() as int, k) <= u64::MAX,
            forall|k: int|
                0 <= k < KINDS ==> #[trigger] need[k] == class_need(blobs@, held@, i as int, k),
        decreases blobs@.len() - i,
    {
        if !held[i] {
            let k = blobs[i].1.kind.idx();
            proof {
                lemma_class_need_grows(blobs@, held@, i + 1, blobs@.len() as int, k as int);
            }
            need[k] = need[k] + blobs[i].1.bytes;
        }
        i = i + 1;
    }
    need
}

/// Whether a node would take `need` on top of `reserved` without refusing: each of its two hot
/// pools must be able to make room, from free space and bytes above floors, for everything
/// bound for it.
pub open spec fn admissible(
    split: bool,
    need: Seq<u64>,
    reserved: Seq<u64>,
    hbm_room: u64,
    ddr_room: u64,
) -> bool {
    by_pool_of(split, need).0 + by_pool_of(split, reserved).0 <= hbm_room
        && by_pool_of(split, need).1 + by_pool_of(split, reserved).1 <= ddr_room
}

/// Whether each pool's share of `need` and `reserved` together is a number of bytes a `u64`
/// holds, which is what `could_admit` adds up.
pub open spec fn pool_sums_within(split: bool, need: Seq<u64>, reserved: Seq<u64>) -> bool {
    by_pool_of(split, need).0 + by_pool_of(split, reserved).0 <= u64::MAX
        && by_pool_of(split, need).1 + by_pool_of(split, reserved).1 <= u64::MAX
}

/// Whether each pool's share of `need` and `reserved` together fits in a `u64`; with `reserved`
/// all zero, whether `by_pool` can add `need` up.
pub fn pool_sums_fit(split: bool, need: &[u64; 4], reserved: &[u64; 4]) -> (ok: bool)
    ensures
        ok == pool_sums_within(split, need@, reserved@),
{
    let ghost up = |j: int| home_tier(split, kind_at(j)) == Tier::Hbm;
    let ghost both = |j: int| need[j] + reserved[j];
    let mut h: u128 = 0;
    let mut d: u128 = 0;
    let mut i: usize = 0;
    while i < 4
        invariant
            i <= 4,
            up == (|j: int| home_tier(split, kind_at(j)) == Tier::Hbm),
            both == (|j: int| need[j] + reserved[j]),
            h == (if i > 0 && up(0) { both(0) } else { 0 }) + (if i > 1 && up(1) {
                both(1)
            } else {
                0
            }) + (if i > 2 && up(2) { both(2) } else { 0 }) + (if i > 3 && up(3) {
                both(3)
            } else {
                0
            }),
            d == (if i > 0 && !up(0) { both(0) } else { 0 }) + (if i > 1 && !up(1) {
                both(1)
            } else {
                0
            }) + (if i > 2 && !up(2) { both(2) } else { 0 }) + (if i > 3 && !up(3) {
                both(3)
            } else {
                0
            }),
        decreases 4 - i,
    {
        let kind = BlobKind::at(i);
        let add = need[i] as u128 + reserved[i] as u128;
        if split && accelerated(kind) {
            h = h + add;
        } else {
            d = d + add;
        }
        i = i + 1;
    }
    h <= u64::MAX as u128 && d <= u64::MAX as u128
}

/// Would a node take these bytes, on top of `reserved`, without refusing, given what its
/// accelerator and host pools can each reclaim? Read-only, so a fan-out can be checked
/// across every node it needs before any is committed.
pub fn could_admit(
    split: bool,
    need: &[u64; 4],
    reserved: &[u64; 4],
    hbm_room: u64,
    ddr_room: u64,
) -> (ok: bool)
    requires
        pool_sums_within(split, need@, reserved@),
    ensures
        ok == admissible(split, need@, reserved@, hbm_room, ddr_room),
{
    let (nh, nd) = by_pool(split, need);
    let (rh, rd) = by_pool(split, reserved);
    nh + rh <= hbm_room && nd + rd <= ddr_room
}

/// What serving a request cost, split by cause.
///
/// `decide_ns` is what it cost to decide, as distinct from to do: zero when scheduler and
/// ledger share a process. `queue_ns` is time waiting for a slot rather than for state.
/// `dispatch_ns` is the hop to the engine that runs the work, kept out of `transfer_ns`
/// because that one answers whether the ledger had to move state. `exec_ns` is the work
/// itself once its state is resident.
#[derive(Clone, Copy, Debug)]
pub struct Cost {
    pub transfer_ns: u64,
    pub recompute_ns: u64,
    pub decide_ns: u64,
    pub queue_ns: u64,
    pub dispatch_ns: u64,
    pub exec_ns: u64,
    pub bytes_in: u64,
    pub pending: bool,
}

impl Default for Cost {
    fn default() -> (c: Self)
        ensures
            c.transfer_ns == 0 && c.recompute_ns == 0 && c.decide_ns == 0 && c.queue_ns == 0
                && c.dispatch_ns == 0 && c.exec_ns == 0 && c.bytes_in == 0 && !c.pending,
    {
        Cost {
            transfer_ns: 0,
            recompute_ns: 0,
            decide_ns: 0,
            queue_ns: 0,
            dispatch_ns: 0,
            exec_ns: 0,
            bytes_in: 0,
            pending: false,
        }
    }
}

/// Time spent waiting on state, the only thing a residency policy can move.
pub open spec fn waiting_ns(c: Cost) -> int {
    c.transfer_ns + c.recompute_ns + c.decide_ns + c.queue_ns + c.dispatch_ns
}

impl Cost {
    /// Time spent waiting on state. Execution is excluded: a fixed decode added to every arm
    /// would bury the differences under a constant.
    pub fn total_ns(&self) -> (t: u64)
        requires
            waiting_ns(*self) <= u64::MAX,
        ensures
            t == waiting_ns(*self),
    {
        self.transfer_ns + self.recompute_ns + self.decide_ns + self.queue_ns + self.dispatch_ns
    }

    /// Whether the request's end-to-end time fits in `u64`, which `total_ns` and `service_ns`
    /// require.
    pub fn within_u64(&self) -> (ok: bool)
        ensures
            ok == (waiting_ns(*self) + self.exec_ns <= u64::MAX),
    {
        let a = self.transfer_ns as u128 + self.recompute_ns as u128 + self.decide_ns as u128
            + self.queue_ns as u128 + self.dispatch_ns as u128 + self.exec_ns as u128;
        a <= u64::MAX as u128
    }

    /// End-to-end time for the request: the waiting plus the work.
    pub fn service_ns(&self) -> (t: u64)
        requires
            waiting_ns(*self) + self.exec_ns <= u64::MAX,
        ensures
            t == waiting_ns(*self) + self.exec_ns,
    {
        self.total_ns() + self.exec_ns
    }
}

/// Capacity and policy of one node's memory. `hbm` of zero is unified memory: every class
/// lives in the one host pool. `can_decode` says whether the node has a serving engine at
/// all, which capacity alone cannot express.
#[derive(Clone, Copy, Debug)]
pub struct NodeMemory {
    pub hbm: u64,
    pub ddr: u64,
    pub nvme: u64,
    pub hbm_quota: Quota,
    pub ddr_quota: Quota,
    pub can_decode: bool,
}

/// Ledger operations performed on state whose allocation the engine, not the orchestrator,
/// has authority over: one counter per entry point, per class.
#[derive(Clone, Copy, Debug)]
pub struct EngineOps {
    pub admits: [u64; 4],
    pub touch: [u64; 4],
    pub anticipate: [u64; 4],
    pub demote: [u64; 4],
    /// Colder copies dropped after an admission.
    pub forget_cold: [u64; 4],
    /// Colder copies dropped after a promotion.
    pub superseded: [u64; 4],
    /// Evicted from host memory by another blob's demotion.
    pub spill: [u64; 4],
    pub drain: [u64; 4],
}

impl Default for EngineOps {
    fn default() -> (e: Self)
        ensures
            forall|k: int|
                0 <= k < KINDS ==> e.admits[k] == 0 && e.touch[k] == 0 && e.anticipate[k] == 0
                    && e.demote[k] == 0 && e.forget_cold[k] == 0 && e.superseded[k] == 0
                    && e.spill[k] == 0 && e.drain[k] == 0,
    {
        EngineOps {
            admits: [0u64; 4],
            touch: [0u64; 4],
            anticipate: [0u64; 4],
            demote: [0u64; 4],
            forget_cold: [0u64; 4],
            superseded: [0u64; 4],
            spill: [0u64; 4],
            drain: [0u64; 4],
        }
    }
}

/// Every engine-authority operation counted for class `k`.
pub open spec fn ops_total(e: EngineOps, k: int) -> int {
    e.admits[k] + e.touch[k] + e.anticipate[k] + e.demote[k] + e.forget_cold[k] + e.superseded[k]
        + e.spill[k] + e.drain[k]
}

/// The ledger's entry points that act on a blob, one census counter each.
#[derive(Clone, Copy, PartialEq, Eq, Debug, Structural)]
pub enum LedgerOp {
    Admit,
    Touch,
    Anticipate,
    Demote,
    ForgetCold,
    Superseded,
    Spill,
    Drain,
}

/// The census counter of `op` for class `k`.
pub open spec fn op_count(e: EngineOps, op: LedgerOp, k: int) -> u64 {
    match op {
        LedgerOp::Admit => e.admits[k],
        LedgerOp::Touch => e.touch[k],
        LedgerOp::Anticipate => e.anticipate[k],
        LedgerOp::Demote => e.demote[k],
        LedgerOp::ForgetCold => e.forget_cold[k],
        LedgerOp::Superseded => e.superseded[k],
        LedgerOp::Spill => e.spill[k],
        LedgerOp::Drain => e.drain[k],
    }
}

/// Every operation has a counter of its own, the one named after it: counting an operation
/// (`record`) moves that counter and reading one (`count`) reads it.
pub proof fn each_operation_has_its_own_counter(e: EngineOps, k: int)
    ensures
        op_count(e, LedgerOp::Admit, k) == e.admits[k],
        op_count(e, LedgerOp::Touch, k) == e.touch[k],
        op_count(e, LedgerOp::Anticipate, k) == e.anticipate[k],
        op_count(e, LedgerOp::Demote, k) == e.demote[k],
        op_count(e, LedgerOp::ForgetCold, k) == e.forget_cold[k],
        op_count(e, LedgerOp::Superseded, k) == e.superseded[k],
        op_count(e, LedgerOp::Spill, k) == e.spill[k],
        op_count(e, LedgerOp::Drain, k) == e.drain[k],
{
}

/// Recording a spill of an accelerated class adds one to its spill counter and to no other
/// counter: a spill is never counted as a drain, nor a drain as a spill.
pub proof fn a_spill_is_counted_as_a_spill(before: EngineOps, after: EngineOps, kind: BlobKind, op: LedgerOp)
    requires
        is_accelerated(kind),
        op == LedgerOp::Spill || op == LedgerOp::Drain,
        forall|o: LedgerOp, k: int|
            0 <= k < KINDS ==> #[trigger] op_count(after, o, k) == if o == op && k == kind_index(
                kind,
            ) {
                op_count(before, o, k) + 1
            } else {
                op_count(before, o, k) as int
            },
    ensures
        op == LedgerOp::Spill ==> after.spill[kind_index(kind)] == before.spill[kind_index(kind)]
            + 1 && after.drain[kind_index(kind)] == before.drain[kind_index(kind)],
        op == LedgerOp::Drain ==> after.drain[kind_index(kind)] == before.drain[kind_index(kind)]
            + 1 && after.spill[kind_index(kind)] == before.spill[kind_index(kind)],
{
    let k = kind_index(kind);
    assert(op_count(after, LedgerOp::Spill, k) == after.spill[k]);
    assert(op_count(after, LedgerOp::Drain, k) == after.drain[k]);
}

impl EngineOps {
    /// The census counter of `op` for `kind`.
    pub fn count(&self, op: LedgerOp, kind: BlobKind) -> (c: u64)
        ensures
            c == op_count(*self, op, kind_index(kind)),
    {
        let k = kind.idx();
        match op {
            LedgerOp::Admit => self.admits[k],
            LedgerOp::Touch => self.touch[k],
            LedgerOp::Anticipate => self.anticipate[k],
            LedgerOp::Demote => self.demote[k],
            LedgerOp::ForgetCold => self.forget_cold[k],
            LedgerOp::Superseded => self.superseded[k],
            LedgerOp::Spill => self.spill[k],
            LedgerOp::Drain => self.drain[k],
        }
    }

    /// Count one ledger operation on `kind`, performed at its home pool on a node with or
    /// without an accelerator, if and only if the engine holds allocation authority over
    /// `kind` there. Every other counter is left as it was.
    pub fn record(&mut self, split: bool, op: LedgerOp, kind: BlobKind) -> (counted: bool)
        requires
            op_count(*old(self), op, kind_index(kind)) < u64::MAX,
        ensures
            counted == (authority_of(kind, home_tier(split, kind), Question::Allocation)
                == Authority::Engine),
            counted == is_accelerated(kind),
            forall|o: LedgerOp, k: int|
                0 <= k < KINDS ==> #[trigger] op_count(*final(self), o, k) == if counted && o
                    == op && k == kind_index(kind) {
                    op_count(*old(self), o, k) + 1
                } else {
                    op_count(*old(self), o, k) as int
                },
    {
        proof {
            home_is_hot_and_authority_matches_acceleration(split, kind);
        }
        if home_authority(split, kind, Question::Allocation) != Authority::Engine {
            return false;
        }
        let k = kind.idx();
        match op {
            LedgerOp::Admit => self.admits[k] = self.admits[k] + 1,
            LedgerOp::Touch => self.touch[k] = self.touch[k] + 1,
            LedgerOp::Anticipate => self.anticipate[k] = self.anticipate[k] + 1,
            LedgerOp::Demote => self.demote[k] = self.demote[k] + 1,
            LedgerOp::ForgetCold => self.forget_cold[k] = self.forget_cold[k] + 1,
            LedgerOp::Superseded => self.superseded[k] = self.superseded[k] + 1,
            LedgerOp::Spill => self.spill[k] = self.spill[k] + 1,
            LedgerOp::Drain => self.drain[k] = self.drain[k] + 1,
        }
        true
    }

    /// Every engine-authority operation counted for `kind`.
    pub fn total(&self, kind: BlobKind) -> (t: u64)
        requires
            ops_total(*self, kind_index(kind)) <= u64::MAX,
        ensures
            t == ops_total(*self, kind_index(kind)),
    {
        let k = kind.idx();
        self.admits[k] + self.touch[k] + self.anticipate[k] + self.demote[k] + self.forget_cold[k]
            + self.superseded[k] + self.spill[k] + self.drain[k]
    }
}

} // verus!
