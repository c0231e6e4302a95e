//! The shapes of the workload's state: KV blocks of a context, function snapshots, weight
//! shards and service heaps, with what each costs to hold and to rebuild.
use vstd::prelude::*;

use crate::blob::{blake3_hash, kind_index, root, root_bytes, BlobId, BlobKind, BlobMeta, KINDS};

verus! {

pub const KV_BLOCK_BYTES: u64 = 524288;

pub const KV_BLOCK_NS: u64 = 400_000;

/// Guest memory of one warm microVM cell.
pub const SNAPSHOT_BYTES: u64 = 33554432;

/// Fixed cost of resuming a snapshot, independent of image size.
pub const SNAPSHOT_RESTORE_NS: u64 = 4_000_000;

pub const WEIGHT_BYTES: u64 = 536870912;

pub const WEIGHT_NS: u64 = 4_000_000_000;

pub const SERVICE_BYTES: u64 = 402653184;

pub const SERVICE_COLD_NS: u64 = 15_000_000_000;

/// Task specification handed to each sub-agent, and the result each one hands back.
pub const DISPATCH_PAYLOAD_BYTES: u64 = 65536;

pub const RESULT_PAYLOAD_BYTES: u64 = 262144;

/// Function output handed to the model: a prompt plus retrieved context.
pub const FLOW_PAYLOAD_BYTES: u64 = 4194304;

/// A tool result handed back to the agent.
pub const TOOL_PAYLOAD_BYTES: u64 = 262144;

pub const FAAS_EXEC_MIN_NS: u64 = 40_000;

pub const FAAS_EXEC_SPAN_NS: u64 = 160_000;

pub const SERVICE_EXEC_NS: u64 = 250_000;

/// One decoded token at a batch of one.
pub const DECODE_NS_PER_TOKEN: u64 = 8_000_000;

pub const PHASES: usize = 4;

/// A content-addressed chain: each entry's parent is its predecessor.
pub type Chain = Vec<(BlobId, BlobMeta)>;

/// One function invocation a sub-agent makes while it works.
#[derive(Clone, Debug)]
pub struct ToolCall {
    pub chain: Chain,
    pub exec_ns: u64,
    /// Arguments out and result back, each this size.
    pub payload_bytes: u64,
}

/// One sub-agent: a session forked from the orchestrator's context.
#[derive(Clone, Debug)]
pub struct Agent {
    pub chain: Chain,
    /// Weight shards of the model this agent's role runs on.
    pub requires: Chain,
    pub tokens: u64,
    pub tools: Vec<ToolCall>,
}

/// An orchestrator's fan-out: sub-agents that must all be admitted or none of them.
#[derive(Clone, Debug)]
pub struct Gang {
    pub agents: Vec<Agent>,
}

/// The class a request bills against: that of its chain's first blob, or for a fan-out with
/// no chain of its own, that of its first agent's first blob; the first class otherwise.
pub open spec fn billed_index(chain: Seq<(BlobId, BlobMeta)>, gang: Option<Gang>) -> int {
    if chain.len() > 0 {
        kind_index(chain[0].1.kind)
    } else if gang is Some && gang->0.agents@.len() > 0 && gang->0.agents@[0].chain@.len() > 0 {
        kind_index(gang->0.agents@[0].chain@[0].1.kind)
    } else {
        0
    }
}

/// The position of the class a request with this chain and fan-out bills against.
pub fn billed_kind_idx(chain: &Chain, gang: Option<&Gang>) -> (k: usize)
    ensures
        k == billed_index(chain@, match gang {
            Some(g) => Some(*g),
            None => None,
        }),
        k < KINDS,
{
    if chain.len() > 0 {
        return chain[0].1.kind.idx();
    }
    match gang {
        Some(g) => {
            if g.agents.len() > 0 && g.agents[0].chain.len() > 0 {
                g.agents[0].chain[0].1.kind.idx()
            } else {
                0
            }
        },
        None => 0,
    }
}

/// How many of the first `n` requests a single ledger processes: every one but a fan-out.
pub open spec fn served_before(reqs: Seq<(bool, Seq<BlobId>)>, n: int) -> int
    decreases n,
{
    if n <= 0 {
        0
    } else {
        served_before(reqs, n - 1) + if reqs[n - 1].0 { 0int } else { 1 }
    }
}

/// Every blob reference in the first `n` requests that a single ledger processes, in order,
/// each tagged with the position of its request among those the ledger processes.
pub open spec fn references_in(reqs: Seq<(bool, Seq<BlobId>)>, n: int) -> Seq<(BlobId, u64)>
    decreases n,
{
    if n <= 0 {
        Seq::empty()
    } else if reqs[n - 1].0 {
        references_in(reqs, n - 1)
    } else {
        references_in(reqs, n - 1) + reqs[n - 1].1.map_values(
            |id: BlobId| (id, served_before(reqs, n - 1) as u64),
        )
    }
}

proof fn lemma_served_before_bounded(reqs: Seq<(bool, Seq<BlobId>)>, n: int)
    requires
        0 <= n,
    ensures
        0 <= served_before(reqs, n) <= n,
    decreases n,
{
    if n > 0 {
        lemma_served_before_bounded(reqs, n - 1);
    }
}

proof fn lemma_references_ascend(reqs: Seq<(bool, Seq<BlobId>)>, n: int)
    requires
        0 <= n <= reqs.len(),
        reqs.len() < u64::MAX,
    ensures
        forall|i: int, j: int|
            0 <= i < j < references_in(reqs, n).len() ==> #[trigger] references_in(reqs, n)[i].1
                <= #[trigger] references_in(reqs, n)[j].1,
        forall|i: int|
            0 <= i < references_in(reqs, n).len() ==> #[trigger] references_in(reqs, n)[i].1
                < served_before(reqs, n),
    decreases n,
{
    if n > 0 {
        lemma_references_ascend(reqs, n - 1);
        lemma_served_before_bounded(reqs, n - 1);
        if !reqs[n - 1].0 {
            let prev = references_in(reqs, n - 1);
            let sb = served_before(reqs, n - 1);
            let block = reqs[n - 1].1.map_values(|id: BlobId| (id, sb as u64));
            let all = references_in(reqs, n);
            assert(all == prev + block);
            assert forall|i: int| 0 <= i < all.len() implies #[trigger] all[i].1 < served_before(
                reqs,
                n,
            ) by {
                if i >= prev.len() {
                    assert(all[i] == block[i - prev.len()]);
                }
            }
            assert forall|i: int, j: int| 0 <= i < j < all.len() implies #[trigger] all[i].1
                <= #[trigger] all[j].1 by {
                if j < prev.len() {
                    assert(all[i] == prev[i] && all[j] == prev[j]);
                } else if i < prev.len() {
                    assert(all[i] == prev[i] && all[j] == block[j - prev.len()]);
                } else {
                    assert(all[i] == block[i - prev.len()] && all[j] == block[j - prev.len()]);
                }
            }
        } else {
            assert(references_in(reqs, n) == references_in(reqs, n - 1));
            assert(served_before(reqs, n) == served_before(reqs, n - 1));
        }
    }
}

/// The positions at which any one blob is referenced come in ascending order, and every
/// position is below the number of requests a single ledger processes: an index that lists
/// each blob's positions in the order `reference_ops` hands them out lists them ascending,
/// one entry per occurrence, and never past the end of the run.
pub proof fn references_ascend_per_blob(reqs: Seq<(bool, Seq<BlobId>)>, id: BlobId, i: int, j: int)
    requires
        reqs.len() < u64::MAX,
        0 <= i < j < references_in(reqs, reqs.len() as int).len(),
        references_in(reqs, reqs.len() as int)[i].0 == id,
        references_in(reqs, reqs.len() as int)[j].0 == id,
    ensures
        references_in(reqs, reqs.len() as int)[i].1 <= references_in(reqs, reqs.len() as int)[j].1,
        references_in(reqs, reqs.len() as int)[j].1 < served_before(reqs, reqs.len() as int),
{
    lemma_references_ascend(reqs, reqs.len() as int);
    let all = references_in(reqs, reqs.len() as int);
    assert(all[i].1 <= all[j].1);
    assert(references_in(reqs, reqs.len() as int)[j].1 < served_before(reqs, reqs.len() as int));
}

/// The ops at which each blob is referenced, in trace order: for every request a single
/// ledger processes (fan-outs are skipped), each blob it names, with that request's position
/// among the processed ones. `requests` gives each request's fan-out flag and the blobs of its
/// chain followed by those of its dependency set.
pub fn reference_ops(requests: &[(bool, Vec<BlobId>)]) -> (refs: Vec<(BlobId, u64)>)
    requires
        requests@.len() < u64::MAX,
    ensures
        refs@ == references_in(
            requests@.map_values(|r: (bool, Vec<BlobId>)| (r.0, r.1@)),
            requests@.len() as int,
        ),
{
    let ghost reqs = requests@.map_values(|r: (bool, Vec<BlobId>)| (r.0, r.1@));
    let mut refs: Vec<(BlobId, u64)> = Vec::new();
    let mut op: u64 = 0;
    let mut i: usize = 0;
    while i < requests.len()
        invariant
            i <= requests@.len(),
            requests@.len() < u64::MAX,
            reqs == requests@.map_values(|r: (bool, Vec<BlobId>)| (r.0, r.1@)),
            op == served_before(reqs, i as int),
            refs@ == references_in(reqs, i as int),
        decreases requests@.len() - i,
    {
        proof {
            lemma_served_before_bounded(reqs, i as int);
        }
        let (fanout, ids) = &requests[i];
        if !*fanout {
            let ghost before = refs@;
            let mut j: usize = 0;
            while j < ids.len()
                invariant
                    j <= ids@.len(),
                    ids@ == reqs[i as int].1,
                    op == served_before(reqs, i as int),
                    refs@ == before + ids@.take(j as int).map_values(|id: BlobId| (id, op)),
                decreases ids@.len() - j,
            {
                refs.push((ids[j], op));
                proof {
                    assert(ids@.take(j + 1).map_values(|id: BlobId| (id, op)) =~= ids@.take(
                        j as int,
                    ).map_values(|id: BlobId| (id, op)).push((ids@[j as int], op)));
                }
                j = j + 1;
            }
            proof {
                assert(ids@.take(ids@.len() as int) =~= ids@);
                let at = served_before(reqs, i as int) as u64;
                assert(reqs[i as int].1.map_values(|id: BlobId| (id, at)) =~= ids@.map_values(
                    |id: BlobId| (id, op),
                ));
            }
            op = op + 1;
        }
        i = i + 1;
    }
    refs
}

/// One KV block of a context, stored under `parent`: its identity chains from the parent's,
/// and a block stored directly under the root has no parent.
pub fn kv(parent: BlobId, tag: &[u8]) -> (block: (BlobId, BlobMeta))
    ensures
        block.0@ == blake3_hash(parent@ + tag@),
        block.1.kind == BlobKind::KvBlock,
        block.1.bytes == KV_BLOCK_BYTES,
        block.1.recompute_ns == KV_BLOCK_NS,
        block.1.parent == if parent@ == root_bytes() {
            None::<BlobId>
        } else {
            Some(parent)
        },
{
    let id = BlobId::chain(parent, tag);
    let meta = BlobMeta {
        kind: BlobKind::KvBlock,
        bytes: KV_BLOCK_BYTES,
        parent: if parent.is_root() {
            None
        } else {
            Some(parent)
        },
        recompute_ns: KV_BLOCK_NS,
    };
    (id, meta)
}

} // verus!
