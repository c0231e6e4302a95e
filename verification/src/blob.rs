//! Content-addressed state: what a blob is, which class of workload it belongs to, and how
//! much it costs to hold or rebuild.
use vstd::prelude::*;

verus! {

/// Number of workload classes the ledger accounts separately.
pub const KINDS: usize = 4;

/// The class of state a blob belongs to. Each class is billed, floored and banded apart.
#[derive(Clone, Copy, PartialEq, Eq, Hash, Debug, Structural)]
pub enum BlobKind {
    KvBlock,
    Snapshot,
    WeightShard,
    ServiceHeap,
}

/// Position of a class in every per-class array of the ledger.
pub open spec fn kind_index(kind: BlobKind) -> int {
    match kind {
        BlobKind::KvBlock => 0,
        BlobKind::Snapshot => 1,
        BlobKind::WeightShard => 2,
        BlobKind::ServiceHeap => 3,
    }
}

/// The class stored at position `i` of every per-class array.
pub open spec fn kind_at(i: int) -> BlobKind {
    if i == 0 {
        BlobKind::KvBlock
    } else if i == 1 {
        BlobKind::Snapshot
    } else if i == 2 {
        BlobKind::WeightShard
    } else {
        BlobKind::ServiceHeap
    }
}

impl BlobKind {
    pub const N: usize = 4;

    pub const ALL: [BlobKind; 4] = [
        BlobKind::KvBlock,
        BlobKind::Snapshot,
        BlobKind::WeightShard,
        BlobKind::ServiceHeap,
    ];

    pub fn idx(self) -> (i: usize)
        ensures
            i == kind_index(self),
            i < KINDS,
    {
        match self {
            BlobKind::KvBlock => 0,
            BlobKind::Snapshot => 1,
            BlobKind::WeightShard => 2,
            BlobKind::ServiceHeap => 3,
        }
    }

    /// The class at position `i`, the inverse of `idx`.
    pub fn at(i: usize) -> (kind: BlobKind)
        requires
            i < KINDS,
        ensures
            kind == kind_at(i as int),
            kind_index(kind) == i,
    {
        if i == 0 {
            BlobKind::KvBlock
        } else if i == 1 {
            BlobKind::Snapshot
        } else if i == 2 {
            BlobKind::WeightShard
        } else {
            BlobKind::ServiceHeap
        }
    }
}

/// The class table lists every class at its own index.
pub proof fn all_is_indexed_by_idx(kind: BlobKind)
    ensures
        BlobKind::ALL@[kind_index(kind)] == kind,
        BlobKind::ALL@.len() == KINDS,
{
}

/// `idx` and `at` are inverse bijections between the classes and `0..KINDS`.
pub proof fn lemma_kind_index_bijective(kind: BlobKind, i: int)
    requires
        0 <= i < KINDS,
    ensures
        0 <= kind_index(kind) < KINDS,
        kind_at(kind_index(kind)) == kind,
        kind_index(kind_at(i)) == i,
        (kind_index(kind) == i) == (kind == kind_at(i)),
{
}


/// The BLAKE3 digest of a byte string: a 32-byte value fixed by its input alone.
pub uninterp spec fn blake3_hash(input: Seq<u8>) -> Seq<u8>;

/// Calls `blake3::Hasher::new`, `update` with `parent` then with `content`, and `finalize`.
/// BLAKE3's hasher is incremental: successive updates hash the concatenation of their inputs,
/// so the contract claims the digest of `parent` followed by `content`, and nothing else.
#[verifier::external_body]
fn blake3_chained(parent: &[u8; 32], content: &[u8]) -> (digest: [u8; 32])
    ensures
        digest@ == blake3_hash(parent@ + content@),
{
    let mut h = blake3::Hasher::new();
    h.update(parent);
    h.update(content);
    *h.finalize().as_bytes()
}

/// A blob's identity: the hash of its parent's identity and its own content, so equal
/// prefixes name equal state wherever they are computed.
#[derive(Clone, Copy, Eq, Hash, PartialOrd, Ord, Debug)]
pub struct BlobId(pub [u8; 32]);

/// The identity every chain starts from: all zero bytes.
pub fn root() -> (id: BlobId)
    ensures
        id@ == root_bytes(),
{
    let id = BlobId([0u8; 32]);
    assert(id@ =~= root_bytes());
    id
}

/// The 32 bytes of the root identity.
pub open spec fn root_bytes() -> Seq<u8> {
    Seq::new(32, |i: int| 0u8)
}

impl View for BlobId {
    type V = Seq<u8>;

    open spec fn view(&self) -> Seq<u8> {
        self.0@
    }
}

impl PartialEq for BlobId {
    fn eq(&self, other: &Self) -> (same: bool) {
        let mut i: usize = 0;
        while i < 32
            invariant
                i <= 32,
                self.0@.len() == 32,
                other.0@.len() == 32,
                forall|j: int| 0 <= j < i ==> self.0@[j] == other.0@[j],
            decreases 32 - i,
        {
            if self.0[i] != other.0[i] {
                return false;
            }
            i = i + 1;
        }
        assert(self.0@ =~= other.0@);
        true
    }
}

impl vstd::std_specs::cmp::PartialEqSpecImpl for BlobId {
    open spec fn obeys_eq_spec() -> bool {
        true
    }

    open spec fn eq_spec(&self, other: &BlobId) -> bool {
        self.0@ == other.0@
    }
}

impl BlobId {
    /// The identity of `content` stored under `parent`.
    pub fn chain(parent: BlobId, content: &[u8]) -> (id: Self)
        ensures
            id@ == blake3_hash(parent@ + content@),
    {
        BlobId(blake3_chained(&parent.0, content))
    }

    /// The identity of `content` with no parent: a chain of one.
    pub fn leaf(content: &[u8]) -> (id: Self)
        ensures
            id@ == blake3_hash(root_bytes() + content@),
    {
        Self::chain(root(), content)
    }

    /// Whether this is the root identity, which no blob has.
    pub fn is_root(&self) -> (r: bool)
        ensures
            r == (self@ == root_bytes()),
    {
        let r = root();
        *self == r
    }

    /// The identity abbreviated for reading: its first four bytes in hexadecimal.
    pub fn short_hex(&self) -> (s: String)
        ensures
            s@ == short_hex_of(self@),
    {
        let mut s = String::new();
        let mut i: usize = 0;
        while i < 4
            invariant
                i <= 4,
                self.0@.len() == 32,
                s@ == short_hex_of(self@).take(2 * i as int),
            decreases 4 - i,
        {
            let b = self.0[i];
            s.append(hex_str(b / 16));
            s.append(hex_str(b % 16));
            proof {
                assert(short_hex_of(self@).take(2 * (i + 1) as int) =~= short_hex_of(self@).take(
                    2 * i as int,
                ) + seq![hex_char(b as int / 16)] + seq![hex_char(b as int % 16)]);
            }
            i = i + 1;
        }
        assert(short_hex_of(self@).take(8) =~= short_hex_of(self@));
        s
    }

    pub fn as_bytes(&self) -> (b: &[u8; 32])
        ensures
            b@ == self@,
    {
        &self.0
    }
}

/// The lower-case hexadecimal digit for `d < 16`.
pub open spec fn hex_char(d: int) -> char {
    if d == 0 {
        '0'
    } else if d == 1 {
        '1'
    } else if d == 2 {
        '2'
    } else if d == 3 {
        '3'
    } else if d == 4 {
        '4'
    } else if d == 5 {
        '5'
    } else if d == 6 {
        '6'
    } else if d == 7 {
        '7'
    } else if d == 8 {
        '8'
    } else if d == 9 {
        '9'
    } else if d == 10 {
        'a'
    } else if d == 11 {
        'b'
    } else if d == 12 {
        'c'
    } else if d == 13 {
        'd'
    } else if d == 14 {
        'e'
    } else {
        'f'
    }
}

/// The first four bytes of an identity as eight hexadecimal digits, high nibble first.
pub open spec fn short_hex_of(b: Seq<u8>) -> Seq<char> {
    seq![
        hex_char(b[0] as int / 16), hex_char(b[0] as int % 16),
        hex_char(b[1] as int / 16), hex_char(b[1] as int % 16),
        hex_char(b[2] as int / 16), hex_char(b[2] as int % 16),
        hex_char(b[3] as int / 16), hex_char(b[3] as int % 16),
    ]
}

fn hex_str(d: u8) -> (s: &'static str)
    requires
        d < 16,
    ensures
        s@ == seq![hex_char(d as int)],
{
    proof {
        reveal_strlit("0");
        reveal_strlit("1");
        reveal_strlit("2");
        reveal_strlit("3");
        reveal_strlit("4");
        reveal_strlit("5");
        reveal_strlit("6");
        reveal_strlit("7");
        reveal_strlit("8");
        reveal_strlit("9");
        reveal_strlit("a");
        reveal_strlit("b");
        reveal_strlit("c");
        reveal_strlit("d");
        reveal_strlit("e");
        reveal_strlit("f");
    }
    let s = if d == 0 {
        "0"
    } else if d == 1 {
        "1"
    } else if d == 2 {
        "2"
    } else if d == 3 {
        "3"
    } else if d == 4 {
        "4"
    } else if d == 5 {
        "5"
    } else if d == 6 {
        "6"
    } else if d == 7 {
        "7"
    } else if d == 8 {
        "8"
    } else if d == 9 {
        "9"
    } else if d == 10 {
        "a"
    } else if d == 11 {
        "b"
    } else if d == 12 {
        "c"
    } else if d == 13 {
        "d"
    } else if d == 14 {
        "e"
    } else {
        "f"
    };
    assert(s@ =~= seq![hex_char(d as int)]);
    s
}

/// What the ledger knows about a blob: its class, its size, the blob it extends, and what it
/// costs to rebuild from nothing.
#[derive(Clone, Copy, Debug)]
pub struct BlobMeta {
    pub kind: BlobKind,
    pub bytes: u64,
    pub parent: Option<BlobId>,
    pub recompute_ns: u64,
}

} // verus!
