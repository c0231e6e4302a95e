//! Continuous batching, which is why a decode step has no fixed cost.
//!
//! A serving engine runs every resident sequence through one step at a time. The step reads
//! the weights once whatever the batch size, so a second sequence is nearly free and the
//! sixty-fourth is not free at all: per-token latency rises with occupancy while throughput
//! saturates. The constants are modelled: `STEP_BASE_NS` is the weight-read floor of a step
//! and `STEP_PER_SEQ_NS` what each extra sequence adds.
use vstd::prelude::*;

verus! {

pub const STEP_BASE_NS: u64 = 7_000_000;

pub const STEP_PER_SEQ_NS: u64 = 40_000;

pub const MAX_BATCH: usize = 64;

/// Nanoseconds one decode step takes with `batch` sequences resident.
pub open spec fn step_of(batch: int) -> int {
    STEP_BASE_NS + (if batch >= 1 { batch - 1 } else { 0 }) * STEP_PER_SEQ_NS
}

/// A step never gets cheaper as the batch grows, and a batch of one pays only the floor.
pub proof fn step_grows_with_batch(a: int, b: int)
    requires
        1 <= a <= b,
    ensures
        step_of(a) <= step_of(b),
        step_of(1) == STEP_BASE_NS,
        step_of(b) - step_of(a) == (b - a) * STEP_PER_SEQ_NS,
{
}

/// Completion times still later than `now`: the sequences occupying a slot at `now`.
pub open spec fn live_at(inflight: Seq<u64>, now: u64) -> Seq<u64> {
    inflight.filter(|e: u64| e > now)
}

/// The earliest of a non-empty list of completion times.
pub open spec fn earliest(s: Seq<u64>) -> u64
    decreases s.len(),
{
    if s.len() <= 1 {
        s[0]
    } else {
        let m = earliest(s.drop_last());
        if s.last() < m {
            s.last()
        } else {
            m
        }
    }
}

/// `earliest` is a lower bound that is attained.
pub proof fn lemma_earliest(s: Seq<u64>)
    requires
        s.len() > 0,
    ensures
        forall|i: int| 0 <= i < s.len() ==> earliest(s) <= s[i],
        exists|i: int| 0 <= i < s.len() && earliest(s) == s[i],
    decreases s.len(),
{
    if s.len() == 1 {
        assert(earliest(s) == s[0]);
    } else {
        lemma_earliest(s.drop_last());
        let m = earliest(s.drop_last());
        let w = choose|i: int| 0 <= i < s.drop_last().len() && m == s.drop_last()[i];
        assert(s[w] == m);
        assert forall|i: int| 0 <= i < s.len() implies earliest(s) <= s[i] by {
            if i < s.len() - 1 {
                assert(s.drop_last()[i] == s[i]);
            }
        }
        if s.last() < m {
            assert(earliest(s) == s[s.len() - 1]);
        } else {
            assert(earliest(s) == s[w]);
        }
    }
}

/// What one decode admission cost: time spent waiting for a slot, time spent decoding, and
/// the batch it landed in.
#[derive(Clone, Copy, Debug)]
pub struct Decode {
    pub queue_ns: u64,
    pub exec_ns: u64,
    pub batch: usize,
}

/// An engine's state as plain values.
pub struct EngineView {
    pub max_batch: nat,
    pub inflight: Seq<u64>,
    pub queue_ns: nat,
    pub batch_sum: nat,
    pub admitted: nat,
    pub saturated: nat,
}

/// One serving engine: the completion times of the sequences holding a slot, and what its
/// admissions have cost so far.
#[derive(Debug)]
pub struct Engine {
    max_batch: usize,
    inflight: Vec<u64>,
    queue_ns: u64,
    batch_sum: u64,
    admitted: u64,
    saturated: u64,
}

impl View for Engine {
    type V = EngineView;

    closed spec fn view(&self) -> EngineView {
        EngineView {
            max_batch: self.max_batch as nat,
            inflight: self.inflight@,
            queue_ns: self.queue_ns as nat,
            batch_sum: self.batch_sum as nat,
            admitted: self.admitted as nat,
            saturated: self.saturated as nat,
        }
    }
}

/// The batch a decode projected at `now` would join, with `reserved` siblings ahead of it.
pub open spec fn projected_batch(e: EngineView, now: u64, reserved: int) -> int {
    let live = live_at(e.inflight, now).len() + reserved;
    if live <= e.max_batch - 1 {
        live + 1
    } else {
        e.max_batch as int
    }
}

/// What a decode of `tokens` would cost if admitted at `now` with `reserved` siblings ahead
/// of it: the wait for the earliest slot when every slot is taken, then the decode itself.
pub open spec fn projected_of(e: EngineView, now: u64, tokens: u64, reserved: int) -> int {
    let live = live_at(e.inflight, now).len() + reserved;
    let wait = if live < e.max_batch {
        0
    } else if e.inflight.len() > 0 && earliest(e.inflight) > now {
        earliest(e.inflight) - now
    } else {
        0
    };
    wait + tokens * step_of(projected_batch(e, now, reserved))
}

/// Whether an admission of `tokens` arriving at `arrival` keeps every counter and its
/// completion time within `u64`.
pub open spec fn admission_fits(e: EngineView, arrival: u64, tokens: u64) -> bool {
    let live = live_at(e.inflight, arrival);
    let start = start_of(e, arrival);
    let batch = live_at(live, start).len() + 1int;
    &&& step_of(batch) <= u64::MAX
    &&& start + tokens * step_of(batch) <= u64::MAX
    &&& e.queue_ns + (start - arrival) <= u64::MAX
    &&& e.batch_sum + batch <= u64::MAX
    &&& e.admitted < u64::MAX
    &&& (live.len() >= e.max_batch ==> e.saturated < u64::MAX)
}

/// The slot an admission at `arrival` starts in: at once if a slot is free after the
/// sequences finished by `arrival` leave, else when the earliest live sequence finishes.
pub open spec fn start_of(e: EngineView, arrival: u64) -> u64 {
    let live = live_at(e.inflight, arrival);
    if live.len() >= e.max_batch {
        earliest(live)
    } else {
        arrival
    }
}

/// An admission that finds a free slot starts at once; one that finds every slot taken
/// starts when the earliest live sequence finishes, which is after it arrived.
pub proof fn admission_waits_only_when_full(e: EngineView, arrival: u64)
    ensures
        live_at(e.inflight, arrival).len() < e.max_batch ==> start_of(e, arrival) == arrival,
        live_at(e.inflight, arrival).len() >= e.max_batch && live_at(e.inflight, arrival).len() > 0
            ==> start_of(e, arrival) > arrival,
{
    if live_at(e.inflight, arrival).len() >= e.max_batch && live_at(e.inflight, arrival).len() > 0 {
        let live = live_at(e.inflight, arrival);
        lemma_earliest(live);
        live_are_later(e.inflight, arrival);
        let w = choose|i: int| 0 <= i < live.len() && earliest(live) == live[i];
        assert(live[w] > arrival);
    }
}

/// An admission that finds a slot free starts at once and joins the batch of the sequences
/// live at its arrival: with `decode`'s contract, `queue_ns` is zero and the batch is one more
/// than `load` at the arrival.
pub proof fn a_free_slot_admits_at_once(e: EngineView, arrival: u64)
    requires
        live_at(e.inflight, arrival).len() < e.max_batch,
    ensures
        start_of(e, arrival) == arrival,
        live_at(live_at(e.inflight, arrival), start_of(e, arrival)).len() == live_at(
            e.inflight,
            arrival,
        ).len(),
{
    live_at_idempotent(e.inflight, arrival);
}

/// Pricing a placement is exact while a slot is free: with nothing reserved, the projection
/// is what an admission at the same time is charged, no wait plus the decode at the batch it
/// joins.
pub proof fn projection_is_exact_with_a_free_slot(e: EngineView, now: u64, tokens: u64)
    requires
        live_at(e.inflight, now).len() < e.max_batch,
    ensures
        ({
            let start = start_of(e, now);
            let batch = live_at(live_at(e.inflight, now), start).len() + 1int;
            projected_of(e, now, tokens, 0) == (start - now) + tokens * step_of(batch)
        }),
{
    live_at_idempotent(e.inflight, now);
}

/// Reserved fan-out siblings take slots just as live sequences do: when the live sequences
/// and the siblings together fill every slot, a projected decode waits for the earliest
/// sequence to finish and then runs in a full batch, whatever the load alone would say.
pub proof fn reserved_siblings_fill_the_engine(e: EngineView, now: u64, tokens: u64, reserved: int)
    requires
        reserved >= 0,
        live_at(e.inflight, now).len() + reserved >= e.max_batch,
        e.inflight.len() > 0,
        earliest(e.inflight) > now,
    ensures
        projected_of(e, now, tokens, reserved) == (earliest(e.inflight) - now) + tokens * step_of(
            e.max_batch as int,
        ),
        projected_of(e, now, tokens, reserved) >= earliest(e.inflight) - now,
{
    assert(projected_batch(e, now, reserved) == e.max_batch);
    assert(tokens * step_of(e.max_batch as int) >= 0) by (nonlinear_arith)
        requires
            step_of(e.max_batch as int) >= 0,
    ;
}

/// While the live sequences and the reserved siblings leave a slot free, a projected decode
/// does not wait: it runs at once in the batch they form with it.
pub proof fn a_slot_left_by_the_siblings_means_no_wait(
    e: EngineView,
    now: u64,
    tokens: u64,
    reserved: int,
)
    requires
        reserved >= 0,
        live_at(e.inflight, now).len() + reserved < e.max_batch,
    ensures
        projected_of(e, now, tokens, reserved) == tokens * step_of(
            live_at(e.inflight, now).len() + reserved + 1,
        ),
{
}

impl Engine {
    #[verifier::type_invariant]
    closed spec fn wf(&self) -> bool {
        &&& 1 <= self.max_batch
        &&& self.inflight.len() <= self.max_batch
    }

    /// An idle engine that batches up to `max_batch` sequences, at least one.
    pub fn new(max_batch: usize) -> (e: Self)
        ensures
            e@.max_batch == if max_batch >= 1 { max_batch as nat } else { 1 },
            e@.inflight.len() == 0,
            e@.queue_ns == 0,
            e@.batch_sum == 0,
            e@.admitted == 0,
            e@.saturated == 0,
    {
        Engine {
            max_batch: if max_batch >= 1 { max_batch } else { 1 },
            inflight: Vec::new(),
            queue_ns: 0,
            batch_sum: 0,
            admitted: 0,
            saturated: 0,
        }
    }

    /// The batch size is at least one and never above the slot count.
    pub fn max_batch(&self) -> (m: usize)
        ensures
            m == self@.max_batch,
            1 <= m,
            self@.inflight.len() <= m,
    {
        proof {
            use_type_invariant(self);
        }
        self.max_batch
    }

    /// Time admissions spent waiting for a slot, in all.
    pub fn queue_ns(&self) -> (q: u64)
        ensures
            q == self@.queue_ns,
    {
        self.queue_ns
    }

    /// Sum of the batch sizes admissions landed in.
    pub fn batch_sum(&self) -> (b: u64)
        ensures
            b == self@.batch_sum,
    {
        self.batch_sum
    }

    /// Sequences admitted.
    pub fn admitted(&self) -> (a: u64)
        ensures
            a == self@.admitted,
    {
        self.admitted
    }

    /// Admissions that found every slot taken.
    pub fn saturated(&self) -> (s: u64)
        ensures
            s == self@.saturated,
    {
        self.saturated
    }

    /// Nanoseconds one decode step takes with `batch` sequences resident.
    pub fn step_ns(batch: usize) -> (ns: u64)
        requires
            step_of(batch as int) <= u64::MAX,
        ensures
            ns == step_of(batch as int),
    {
        STEP_BASE_NS + (batch.saturating_sub(1)) as u64 * STEP_PER_SEQ_NS
    }

    /// Release the slots of every sequence finished by `now_ns`.
    fn retire(&mut self, now_ns: u64)
        ensures
            final(self)@.inflight == live_at(old(self)@.inflight, now_ns),
            final(self)@.max_batch == old(self)@.max_batch,
            final(self)@.queue_ns == old(self)@.queue_ns,
            final(self)@.batch_sum == old(self)@.batch_sum,
            final(self)@.admitted == old(self)@.admitted,
            final(self)@.saturated == old(self)@.saturated,
    {
        proof {
            use_type_invariant(&*self);
        }
        let kept = live_list(&self.inflight, now_ns);
        proof {
            old(self)@.inflight.lemma_filter_len(|e: u64| e > now_ns);
        }
        *self = Engine {
            max_batch: self.max_batch,
            inflight: kept,
            queue_ns: self.queue_ns,
            batch_sum: self.batch_sum,
            admitted: self.admitted,
            saturated: self.saturated,
        };
    }

    /// Sequences still resident at `now_ns`. Read-only, so placement can price every
    /// candidate engine before committing to one.
    pub fn load(&self, now_ns: u64) -> (n: usize)
        ensures
            n == live_at(self@.inflight, now_ns).len(),
            n <= self@.max_batch,
    {
        proof {
            use_type_invariant(self);
            self.inflight@.lemma_filter_len(|e: u64| e > now_ns);
        }
        let kept = live_list(&self.inflight, now_ns);
        kept.len()
    }

    /// What admitting `tokens` of decode here would cost, without admitting it: the wait for
    /// a slot if every one is taken, then the decode at the batch it would join. `reserved`
    /// counts sequences already promised to this engine but not yet admitted.
    pub fn projected_ns(&self, now_ns: u64, tokens: u64, reserved: usize) -> (ns: u64)
        requires
            live_at(self@.inflight, now_ns).len() + reserved <= usize::MAX,
            step_of(projected_batch(self@, now_ns, reserved as int)) <= u64::MAX,
            projected_of(self@, now_ns, tokens, reserved as int) <= u64::MAX,
        ensures
            ns == projected_of(self@, now_ns, tokens, reserved as int),
    {
        proof {
            use_type_invariant(self);
        }
        let live = self.load(now_ns) + reserved;
        let wait: u64 = if live < self.max_batch {
            0
        } else if self.inflight.len() > 0 {
            let first = earliest_of(&self.inflight);
            first.saturating_sub(now_ns)
        } else {
            0
        };
        let batch = if live <= self.max_batch - 1 {
            live + 1
        } else {
            self.max_batch
        };
        let step = Self::step_ns(batch);
        proof {
            assert(0 <= tokens * step) by (nonlinear_arith);
        }
        wait + tokens * step
    }

    /// Whether projecting `tokens` of decode at `now_ns` with `reserved` siblings stays within
    /// machine integers, which `projected_ns` requires.
    pub fn projection_fits(&self, now_ns: u64, tokens: u64, reserved: usize) -> (ok: bool)
        ensures
            ok == (live_at(self@.inflight, now_ns).len() + reserved <= usize::MAX && step_of(
                projected_batch(self@, now_ns, reserved as int),
            ) <= u64::MAX && projected_of(self@, now_ns, tokens, reserved as int) <= u64::MAX),
    {
        proof {
            use_type_invariant(self);
        }
        let load = self.load(now_ns);
        if reserved > usize::MAX - load {
            return false;
        }
        let live = load + reserved;
        let wait: u64 = if live < self.max_batch {
            0
        } else if self.inflight.len() > 0 {
            let first = earliest_of(&self.inflight);
            first.saturating_sub(now_ns)
        } else {
            0
        };
        let batch: u128 = if live <= self.max_batch - 1 {
            live as u128 + 1
        } else {
            self.max_batch as u128
        };
        assert(batch - 1 <= 0x1_0000_0000_0000_0000);
        assert((batch - 1) * 40_000 <= 0x1_0000_0000_0000_0000 * 40_000) by (nonlinear_arith)
            requires
                batch - 1 <= 0x1_0000_0000_0000_0000,
                batch >= 1,
        ;
        let step: u128 = STEP_BASE_NS as u128 + (batch - 1) * STEP_PER_SEQ_NS as u128;
        if step > u64::MAX as u128 {
            return false;
        }
        assert(tokens as u128 * step <= u64::MAX as int * u64::MAX as int) by (nonlinear_arith)
            requires
                tokens <= u64::MAX,
                step <= u64::MAX,
        ;
        wait as u128 + tokens as u128 * step <= u64::MAX as u128
    }

    /// Whether admitting `tokens` of decode at `arrival_ns` keeps every counter and its
    /// completion time within `u64`, which `decode` requires.
    pub fn fits(&self, arrival_ns: u64, tokens: u64) -> (ok: bool)
        ensures
            ok == admission_fits(self@, arrival_ns, tokens),
    {
        proof {
            use_type_invariant(self);
        }
        let live = live_list(&self.inflight, arrival_ns);
        let saturated = live.len() >= self.max_batch;
        let start = if saturated {
            proof {
                lemma_earliest(live@);
                live_are_later(self@.inflight, arrival_ns);
                let w = choose|i: int| 0 <= i < live@.len() && earliest(live@) == live@[i];
                assert(live@[w] > arrival_ns);
            }
            earliest_of(&live)
        } else {
            arrival_ns
        };
        let kept = live_list(&live, start).len();
        let batch: u128 = kept as u128 + 1;
        assert(batch - 1 <= 0x1_0000_0000_0000_0000);
        assert((batch - 1) * 40_000 <= 0x1_0000_0000_0000_0000 * 40_000) by (nonlinear_arith)
            requires
                batch - 1 <= 0x1_0000_0000_0000_0000,
                batch >= 1,
        ;
        let step: u128 = STEP_BASE_NS as u128 + (batch - 1) * STEP_PER_SEQ_NS as u128;
        if step > u64::MAX as u128 {
            return false;
        }
        assert(tokens as u128 * step <= u64::MAX as int * u64::MAX as int) by (nonlinear_arith)
            requires
                tokens <= u64::MAX,
                step <= u64::MAX,
        ;
        let exec: u128 = tokens as u128 * step;
        start as u128 + exec <= u64::MAX as u128 && self.queue_ns as u128 + (start - arrival_ns) as u128
            <= u64::MAX as u128 && self.batch_sum as u128 + batch <= u64::MAX as u128
            && self.admitted < u64::MAX && (!saturated || self.saturated < u64::MAX)
    }

    /// Admit one sequence arriving at `arrival_ns` with `tokens` to decode. The batch is
    /// sampled once at admission and held for the whole decode.
    pub fn decode(&mut self, arrival_ns: u64, tokens: u64) -> (d: Decode)
        requires
            admission_fits(old(self)@, arrival_ns, tokens),
        ensures
            ({
                let live = live_at(old(self)@.inflight, arrival_ns);
                let start = start_of(old(self)@, arrival_ns);
                let kept = live_at(live, start);
                let saturated = live.len() >= old(self)@.max_batch;
                &&& d.queue_ns == start - arrival_ns
                &&& d.batch == kept.len() + 1
                &&& 1 <= d.batch <= old(self)@.max_batch
                &&& d.exec_ns == tokens * step_of(d.batch as int)
                &&& final(self)@.inflight == kept.push((start + d.exec_ns) as u64)
                &&& final(self)@.max_batch == old(self)@.max_batch
                &&& final(self)@.queue_ns == old(self)@.queue_ns + d.queue_ns
                &&& final(self)@.batch_sum == old(self)@.batch_sum + d.batch
                &&& final(self)@.admitted == old(self)@.admitted + 1
                &&& final(self)@.saturated == old(self)@.saturated + (if saturated {
                    1int
                } else {
                    0
                })
            }),
    {
        proof {
            use_type_invariant(&*self);
        }
        let ghost e0 = self@;
        self.retire(arrival_ns);
        let ghost live = self@.inflight;
        let mut start = arrival_ns;
        let mut sat: u64 = self.saturated;
        if self.inflight.len() >= self.max_batch {
            sat = sat + 1;
            let first = earliest_of(&self.inflight);
            proof {
                lemma_earliest(live);
                live_are_later(e0.inflight, arrival_ns);
                let w = choose|i: int| 0 <= i < live.len() && earliest(live) == live[i];
                assert(live[w] > arrival_ns);
            }
            if first > start {
                start = first;
            }
            proof {
                let w = choose|i: int| 0 <= i < live.len() && earliest(live) == live[i];
                filter_member_of(e0.inflight, arrival_ns, w);
                let j = choose|j: int| 0 <= j < e0.inflight.len() && e0.inflight[j] == live[w];
                assert(e0.inflight[j] == start);
            }
            self.retire(start);
            proof {
                let w = choose|i: int| 0 <= i < live.len() && earliest(live) == live[i];
                dropping_a_member_shrinks(live, start, w);
            }
        }
        proof {
            live_at(live, start).lemma_filter_len(|e: u64| e > start);
            live.lemma_filter_len(|e: u64| e > start);
            if live.len() < e0.max_batch {
                live_at_self_when_earlier(live, arrival_ns, e0.inflight);
            }
            lemma_member_of_original(e0.inflight, arrival_ns, start);
        }
        let batch = self.inflight.len() + 1;
        let step = Self::step_ns(batch);
        proof {
            assert(0 <= tokens * step) by (nonlinear_arith);
        }
        let exec_ns = tokens * step;
        let queue_ns = start - arrival_ns;
        let mut inflight = self.inflight.clone();
        inflight.push(start + exec_ns);
        *self = Engine {
            max_batch: self.max_batch,
            inflight,
            queue_ns: self.queue_ns + queue_ns,
            batch_sum: self.batch_sum + batch as u64,
            admitted: self.admitted + 1,
            saturated: sat,
        };
        Decode { queue_ns, exec_ns, batch }
    }
}

/// Completion times in `v` later than `now`, in their original order.
fn live_list(v: &Vec<u64>, now: u64) -> (kept: Vec<u64>)
    ensures
        kept@ == live_at(v@, now),
{
    let mut kept: Vec<u64> = Vec::new();
    let mut i: usize = 0;
    while i < v.len()
        invariant
            i <= v.len(),
            kept@ == v@.take(i as int).filter(|e: u64| e > now),
        decreases v.len() - i,
    {
        proof {
            reveal(Seq::filter);
            assert(v@.take(i + 1).drop_last() =~= v@.take(i as int));
        }
        if v[i] > now {
            kept.push(v[i]);
        }
        i = i + 1;
    }
    assert(v@.take(v.len() as int) =~= v@);
    kept
}

/// The earliest completion time in a non-empty list.
fn earliest_of(v: &Vec<u64>) -> (m: u64)
    requires
        v.len() > 0,
    ensures
        m == earliest(v@),
{
    let mut m = v[0];
    let mut i: usize = 1;
    proof {
        assert(v@.take(1).len() == 1);
    }
    while i < v.len()
        invariant
            1 <= i <= v.len(),
            m == earliest(v@.take(i as int)),
        decreases v.len() - i,
    {
        proof {
            assert(v@.take(i + 1).drop_last() =~= v@.take(i as int));
        }
        if v[i] < m {
            m = v[i];
        }
        i = i + 1;
    }
    assert(v@.take(v.len() as int) =~= v@);
    m
}

proof fn live_are_later(s: Seq<u64>, now: u64)
    ensures
        forall|i: int| 0 <= i < live_at(s, now).len() ==> #[trigger] live_at(s, now)[i] > now,
{
    broadcast use Seq::lemma_filter_pred;
}

/// Filtering at a threshold at or above some member's value drops at least that member.
proof fn dropping_a_member_shrinks(s: Seq<u64>, t: u64, w: int)
    requires
        0 <= w < s.len(),
        s[w] <= t,
    ensures
        live_at(s, t).len() < s.len(),
    decreases s.len(),
{
    reveal(Seq::filter);
    if w == s.len() - 1 {
        s.drop_last().lemma_filter_len(|e: u64| e > t);
    } else {
        dropping_a_member_shrinks(s.drop_last(), t, w);
        assert(s.drop_last()[w] == s[w]);
    }
}

/// Filtering a list already filtered at an earlier time, at that same time, changes nothing.
proof fn live_at_self_when_earlier(live: Seq<u64>, now: u64, s: Seq<u64>)
    requires
        live == live_at(s, now),
    ensures
        live_at(live, now) == live,
{
    live_at_idempotent(s, now);
}

proof fn live_at_idempotent(s: Seq<u64>, now: u64)
    ensures
        live_at(live_at(s, now), now) == live_at(s, now),
    decreases s.len(),
{
    reveal(Seq::filter);
    if s.len() > 0 {
        live_at_idempotent(s.drop_last(), now);
        let f = live_at(s.drop_last(), now);
        if s.last() > now {
            assert(live_at(s, now) == f.push(s.last()));
            assert(live_at(f.push(s.last()), now) =~= live_at(f, now).push(s.last())) by {
                assert(f.push(s.last()).drop_last() =~= f);
            }
        }
    }
}

/// Every completion time still in flight after two retirements was in flight before them.
proof fn lemma_member_of_original(s: Seq<u64>, a: u64, b: u64)
    ensures
        forall|i: int|
            0 <= i < live_at(live_at(s, a), b).len() ==> s.contains(
                #[trigger] live_at(live_at(s, a), b)[i],
            ),
{
    broadcast use Seq::lemma_filter_pred;
    assert forall|i: int|
        0 <= i < live_at(live_at(s, a), b).len() implies s.contains(
            #[trigger] live_at(live_at(s, a), b)[i],
        ) by {
        let x = live_at(live_at(s, a), b)[i];
        filter_member_of(live_at(s, a), b, i);
        let j = choose|j: int| 0 <= j < live_at(s, a).len() && live_at(s, a)[j] == x;
        filter_member_of(s, a, j);
    }
}

proof fn filter_member_of(s: Seq<u64>, t: u64, i: int)
    requires
        0 <= i < live_at(s, t).len(),
    ensures
        s.contains(live_at(s, t)[i]),
    decreases s.len(),
{
    reveal(Seq::filter);
    if s.len() > 0 {
        let f = live_at(s.drop_last(), t);
        if s.last() > t && i == f.len() {
            assert(s[s.len() - 1] == live_at(s, t)[i]);
        } else {
            filter_member_of(s.drop_last(), t, i);
            let j = choose|j: int| 0 <= j < s.drop_last().len() && s.drop_last()[j] == f[i];
            assert(s[j] == live_at(s, t)[i]);
        }
    }
}

} // verus!
