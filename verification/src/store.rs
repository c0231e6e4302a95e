//! Real bytes behind the ledger: aligned buffers, and the slot allocator of the spill file.
use vstd::prelude::*;
use std::collections::HashMap;

use crate::plat::DIRECT_ALIGN;

verus! {

broadcast use vstd::std_specs::hash::group_hash_axioms;

/// `len` rounded up to a whole number of direct-I/O blocks, and never less than one block.
pub open spec fn padded_len(len: int) -> int {
    let rounded = if len % 4096 == 0 {
        len
    } else {
        len + (4096 - len % 4096)
    };
    if rounded >= 4096 {
        rounded
    } else {
        4096
    }
}

/// Padding yields a whole number of blocks, at least one, that holds `len` bytes and wastes
/// less than one block beyond what a single block would need.
pub proof fn padding_is_whole_blocks(len: int)
    requires
        len >= 0,
    ensures
        padded_len(len) % 4096 == 0,
        padded_len(len) >= len,
        padded_len(len) >= 4096,
        padded_len(len) < len + 4096 || padded_len(len) == 4096,
{
}

/// Calls `<*const u8>::align_offset` on the start of `buf` with alignment `align`: how many
/// bytes to skip so that what follows starts on an `align` boundary. Its documentation also
/// lets it answer `usize::MAX`, and bounds nothing else that a specification could see, so
/// nothing is claimed of the result; `Bytes::new` checks it before using it. It panics unless
/// `align` is a power of two, which `requires` leaves out.
#[verifier::external_body]
fn block_offset(buf: &[u8], align: usize) -> (off: usize)
    requires
        align > 0,
        align & ((align - 1) as usize) == 0,
{
    buf.as_ptr().align_offset(align)
}

/// A buffer whose length is a whole number of direct-I/O blocks, so it can be written to and
/// read from a file opened for direct I/O. The bytes live at a block-aligned offset inside an
/// allocation one block larger than they need.
#[derive(Debug)]
pub struct Bytes {
    data: Vec<u8>,
    start: usize,
    len: usize,
}

impl View for Bytes {
    type V = Seq<u8>;

    closed spec fn view(&self) -> Seq<u8> {
        self.data@.subrange(self.start as int, self.start + self.len)
    }
}

impl Bytes {
    /// The window the buffer's bytes occupy lies inside its allocation. It is a precondition
    /// of the methods rather than a type invariant because `as_mut_slice` lends the bytes out,
    /// and Verus has no fact that a lent slice keeps its length, so such an invariant could
    /// not be shown to hold again when the loan ends.
    pub closed spec fn wf(&self) -> bool {
        self.start + self.len <= self.data@.len()
    }

    /// A zeroed buffer of at least `len` bytes, padded to whole blocks. The allocation is one
    /// block more than that, and must fit in `isize`.
    pub fn new(len: usize) -> (b: Self)
        requires
            padded_len(len as int) + 4096 <= isize::MAX,
        ensures
            b.wf(),
            b@.len() == padded_len(len as int),
            forall|i: int| 0 <= i < b@.len() ==> b@[i] == 0,
    {
        let rounded = if len % DIRECT_ALIGN == 0 {
            len
        } else {
            len + (DIRECT_ALIGN - len % DIRECT_ALIGN)
        };
        let n = if rounded >= DIRECT_ALIGN {
            rounded
        } else {
            DIRECT_ALIGN
        };
        let data = vec![0u8; n + DIRECT_ALIGN];
        assert(4096usize & 4095usize == 0) by (bit_vector);
        let off = block_offset(data.as_slice(), DIRECT_ALIGN);
        let start = if off < DIRECT_ALIGN {
            off
        } else {
            0
        };
        let b = Bytes { data, start, len: n };
        assert forall|i: int| 0 <= i < b@.len() implies b@[i] == 0 by {
            assert(b@[i] == b.data@[start + i]);
        }
        b
    }

    /// Whether a buffer for `len` bytes can be allocated: its padded length plus one block
    /// fits in `isize`.
    pub fn allocatable(len: usize) -> (ok: bool)
        ensures
            ok == (padded_len(len as int) + 4096 <= isize::MAX),
    {
        let limit: usize = isize::MAX as usize;
        if len > limit - DIRECT_ALIGN {
            return false;
        }
        let rounded = if len % DIRECT_ALIGN == 0 {
            len
        } else {
            len + (DIRECT_ALIGN - len % DIRECT_ALIGN)
        };
        let n = if rounded >= DIRECT_ALIGN {
            rounded
        } else {
            DIRECT_ALIGN
        };
        n + DIRECT_ALIGN <= limit
    }

    pub fn len(&self) -> (n: usize)
        requires
            self.wf(),
        ensures
            n == self@.len(),
    {
        self.len
    }

    pub fn as_slice(&self) -> (s: &[u8])
        requires
            self.wf(),
        ensures
            s@ == self@,
    {
        let (_, rest) = self.data.as_slice().split_at(self.start);
        let (s, _) = rest.split_at(self.len);
        assert(s@ =~= self@);
        s
    }

    /// The buffer's bytes, to be filled in place. What is written through the slice is what
    /// the buffer then holds; the link is stated for a slice that keeps its length, as every
    /// slice does, since Verus has no axiom saying so.
    pub fn as_mut_slice(&mut self) -> (s: &mut [u8])
        requires
            old(self).wf(),
        ensures
            s@ == old(self)@,
            final(s)@.len() == s@.len() ==> final(self).wf() && final(self)@ == final(s)@,
    {
        let start = self.start;
        let len = self.len;
        let whole = self.data.as_mut_slice();
        let (head, rest) = whole.split_at_mut(start);
        let (s, tail) = rest.split_at_mut(len);
        s
    }

    /// Touch one byte per block, so every page of the buffer is really backed by memory.
    pub fn fault_in(&mut self, seed: u8)
        requires
            old(self).wf(),
        ensures
            final(self).wf(),
            final(self)@.len() == old(self)@.len(),
            forall|i: int|
                0 <= i < final(self)@.len() ==> #[trigger] final(self)@[i] == if i % 4096 == 0 {
                    seed
                } else {
                    old(self)@[i]
                },
    {
        let n = self.len;
        let start = self.start;
        let total = self.data.len();
        let mut i: usize = 0;
        let ghost orig = self@;
        while i < n
            invariant
                n == self.len,
                start == self.start,
                total == self.data@.len(),
                self.wf(),
                orig.len() == n,
                i <= n,
                i % 4096 == 0 || i == n,
                forall|j: int|
                    0 <= j < n ==> #[trigger] self@[j] == if j % 4096 == 0 && j < i {
                        seed
                    } else {
                        orig[j]
                    },
            decreases n - i,
        {
            let ghost before = self@;
            self.data.set(start + i, seed);
            assert forall|j: int| 0 <= j < n implies #[trigger] self@[j] == if j == i {
                seed
            } else {
                before[j]
            } by {
                assert(self@[j] == self.data@[start + j]);
            }
            if n - i <= DIRECT_ALIGN {
                i = n;
            } else {
                i = i + DIRECT_ALIGN;
            }
        }
    }
}

/// Counters of the bytes a store holds and the I/O it has done.
#[derive(Clone, Copy, Debug)]
pub struct StoreStats {
    pub dram_bytes: u64,
    pub spill_bytes: u64,
    pub writes: u64,
    pub reads: u64,
    pub write_ns: u64,
    pub read_ns: u64,
    pub fault_ns: u64,
}

impl Default for StoreStats {
    fn default() -> (s: Self)
        ensures
            s.dram_bytes == 0 && s.spill_bytes == 0 && s.writes == 0 && s.reads == 0
                && s.write_ns == 0 && s.read_ns == 0 && s.fault_ns == 0,
    {
        StoreStats {
            dram_bytes: 0,
            spill_bytes: 0,
            writes: 0,
            reads: 0,
            write_ns: 0,
            read_ns: 0,
            fault_ns: 0,
        }
    }
}

impl StoreStats {
    /// Account for a buffer of `bytes` faulted into host memory in `ns`. False, with nothing
    /// changed, when a counter would overflow.
    pub fn faulted(&mut self, bytes: u64, ns: u64) -> (ok: bool)
        ensures
            ok == (old(self).fault_ns + ns <= u64::MAX && old(self).dram_bytes + bytes <= u64::MAX),
            ok ==> *final(self) == (StoreStats {
                fault_ns: (old(self).fault_ns + ns) as u64,
                dram_bytes: (old(self).dram_bytes + bytes) as u64,
                ..*old(self)
            }),
            !ok ==> *final(self) == *old(self),
    {
        if ns > u64::MAX - self.fault_ns || bytes > u64::MAX - self.dram_bytes {
            return false;
        }
        self.fault_ns = self.fault_ns + ns;
        self.dram_bytes = self.dram_bytes + bytes;
        true
    }

    /// Account for a buffer of `bytes` leaving host memory. False, with nothing changed, when
    /// fewer bytes are counted there.
    pub fn left_memory(&mut self, bytes: u64) -> (ok: bool)
        ensures
            ok == (bytes <= old(self).dram_bytes),
            ok ==> *final(self) == (StoreStats {
                dram_bytes: (old(self).dram_bytes - bytes) as u64,
                ..*old(self)
            }),
            !ok ==> *final(self) == *old(self),
    {
        if bytes > self.dram_bytes {
            return false;
        }
        self.dram_bytes = self.dram_bytes - bytes;
        true
    }

    /// Account for `bytes` written to the spill file in `ns`. False, with nothing changed,
    /// when a counter would overflow.
    pub fn written(&mut self, bytes: u64, ns: u64) -> (ok: bool)
        ensures
            ok == (old(self).spill_bytes + bytes <= u64::MAX && old(self).writes < u64::MAX
                && old(self).write_ns + ns <= u64::MAX),
            ok ==> *final(self) == (StoreStats {
                spill_bytes: (old(self).spill_bytes + bytes) as u64,
                writes: (old(self).writes + 1) as u64,
                write_ns: (old(self).write_ns + ns) as u64,
                ..*old(self)
            }),
            !ok ==> *final(self) == *old(self),
    {
        if bytes > u64::MAX - self.spill_bytes || self.writes == u64::MAX || ns > u64::MAX
            - self.write_ns {
            return false;
        }
        self.spill_bytes = self.spill_bytes + bytes;
        self.writes = self.writes + 1;
        self.write_ns = self.write_ns + ns;
        true
    }

    /// Account for a slot of `bytes` read back from the spill file in `ns`, the slot freed, and,
    /// when the read succeeded, a buffer of `landed` bytes now in host memory. False, with
    /// nothing changed, when a counter would overflow or fewer spilled bytes are counted.
    pub fn read_back(&mut self, bytes: u64, ns: u64, landed: Option<u64>) -> (ok: bool)
        ensures
            ok == (bytes <= old(self).spill_bytes && old(self).reads < u64::MAX && old(self).read_ns
                + ns <= u64::MAX && (landed is Some ==> old(self).dram_bytes + landed->0
                <= u64::MAX)),
            ok ==> *final(self) == (StoreStats {
                spill_bytes: (old(self).spill_bytes - bytes) as u64,
                reads: (old(self).reads + 1) as u64,
                read_ns: (old(self).read_ns + ns) as u64,
                dram_bytes: match landed {
                    Some(b) => (old(self).dram_bytes + b) as u64,
                    None => old(self).dram_bytes,
                },
                ..*old(self)
            }),
            !ok ==> *final(self) == *old(self),
    {
        if bytes > self.spill_bytes || self.reads == u64::MAX || ns > u64::MAX - self.read_ns {
            return false;
        }
        if let Some(b) = landed {
            if b > u64::MAX - self.dram_bytes {
                return false;
            }
            self.dram_bytes = self.dram_bytes + b;
        }
        self.spill_bytes = self.spill_bytes - bytes;
        self.reads = self.reads + 1;
        self.read_ns = self.read_ns + ns;
        true
    }

    /// Account for a spilled slot of `bytes` dropped. False, with nothing changed, when fewer
    /// spilled bytes are counted.
    pub fn dropped(&mut self, bytes: u64) -> (ok: bool)
        ensures
            ok == (bytes <= old(self).spill_bytes),
            ok ==> *final(self) == (StoreStats {
                spill_bytes: (old(self).spill_bytes - bytes) as u64,
                ..*old(self)
            }),
            !ok ==> *final(self) == *old(self),
    {
        if bytes > self.spill_bytes {
            return false;
        }
        self.spill_bytes = self.spill_bytes - bytes;
        true
    }
}

/// The space of a spill file: freed slots by length, and the end of the file, which may not
/// pass `cap`.
#[derive(Debug)]
pub struct Spill {
    free: HashMap<usize, Vec<u64>>,
    end: u64,
    cap: u64,
}

/// A spill file's space as plain values.
pub struct SpillView {
    pub free: Map<usize, Seq<u64>>,
    pub end: u64,
    pub cap: u64,
}

impl View for Spill {
    type V = SpillView;

    closed spec fn view(&self) -> SpillView {
        SpillView {
            free: self.free@.map_values(|v: Vec<u64>| v@),
            end: self.end,
            cap: self.cap,
        }
    }
}

impl Spill {
    /// An empty spill file that may grow to `cap` bytes.
    pub fn new(cap: u64) -> (s: Self)
        ensures
            s@.free == Map::<usize, Seq<u64>>::empty(),
            s@.end == 0,
            s@.cap == cap,
            s@.end <= s@.cap,
    {
        let s = Spill { free: HashMap::new(), end: 0, cap };
        assert(s@.free =~= Map::<usize, Seq<u64>>::empty());
        s
    }

    /// A slot of `len` bytes: the most recently freed slot of that length if there is one,
    /// else fresh space at the end of the file if it fits under the cap, else none.
    pub fn allocate(&mut self, len: usize) -> (off: Option<u64>)
        requires
            (old(self)@.free.contains_key(len) && old(self)@.free[len].len() > 0)
                || old(self)@.end + len <= u64::MAX,
        ensures
            final(self)@.cap == old(self)@.cap,
            old(self)@.end <= old(self)@.cap ==> final(self)@.end <= final(self)@.cap,
            ({
                let reusable = old(self)@.free.contains_key(len) && old(self)@.free[len].len() > 0;
                if reusable {
                    &&& off == Some(old(self)@.free[len].last())
                    &&& final(self)@.end == old(self)@.end
                    &&& final(self)@.free == old(self)@.free.insert(
                        len,
                        old(self)@.free[len].drop_last(),
                    )
                } else if old(self)@.end + len > old(self)@.cap {
                    &&& off is None
                    &&& final(self)@.end == old(self)@.end
                    &&& final(self)@.free == old(self)@.free
                } else {
                    &&& off == Some(old(self)@.end)
                    &&& final(self)@.end == old(self)@.end + len
                    &&& final(self)@.free == old(self)@.free
                }
            }),
    {
        let ghost before = self@.free;
        match self.free.remove(&len) {
            Some(mut list) => {
                let ghost whole = list@;
                let popped = list.pop();
                self.free.insert(len, list);
                if let Some(off) = popped {
                    proof {
                        assert(self@.free =~= before.insert(len, before[len].drop_last()));
                    }
                    return Some(off);
                }
                proof {
                    assert(whole.len() == 0);
                    assert(self@.free =~= before);
                }
            },
            None => {
                proof {
                    assert(self@.free =~= before);
                }
            },
        }
        if self.end + len as u64 > self.cap {
            return None;
        }
        let off = self.end;
        self.end = self.end + len as u64;
        Some(off)
    }

    /// Whether `allocate(len)` is within its bounds: a freed slot of that length is waiting,
    /// or the end of the file can grow by `len` within `u64`.
    pub fn can_allocate(&self, len: usize) -> (ok: bool)
        ensures
            ok == ((self@.free.contains_key(len) && self@.free[len].len() > 0) || self@.end + len
                <= u64::MAX),
    {
        let waiting = match self.free.get(&len) {
            Some(list) => list.len() > 0,
            None => false,
        };
        waiting || len as u64 <= u64::MAX - self.end
    }

    /// Return the slot at `off` of `len` bytes to the free list of its length.
    pub fn release(&mut self, len: usize, off: u64)
        ensures
            final(self)@.cap == old(self)@.cap,
            final(self)@.end == old(self)@.end,
            final(self)@.free == old(self)@.free.insert(
                len,
                if old(self)@.free.contains_key(len) {
                    old(self)@.free[len]
                } else {
                    Seq::<u64>::empty()
                }.push(off),
            ),
    {
        let ghost before = self@.free;
        let mut list = match self.free.remove(&len) {
            Some(list) => list,
            None => Vec::new(),
        };
        list.push(off);
        self.free.insert(len, list);
        proof {
            assert(self@.free =~= before.insert(
                len,
                if before.contains_key(len) {
                    before[len]
                } else {
                    Seq::<u64>::empty()
                }.push(off),
            ));
        }
    }
}

/// A slot handed back is the next one handed out for its length: releasing `off` and then
/// allocating the same length returns `off`, and leaves the free lists and the end of the file
/// as they were before the release.
pub proof fn release_then_allocate_reuses(
    before: SpillView,
    mid: SpillView,
    after: SpillView,
    len: usize,
    off: u64,
    got: Option<u64>,
)
    requires
        mid.cap == before.cap,
        mid.end == before.end,
        mid.free == before.free.insert(
            len,
            if before.free.contains_key(len) {
                before.free[len]
            } else {
                Seq::<u64>::empty()
            }.push(off),
        ),
        after.cap == mid.cap,
        ({
            let reusable = mid.free.contains_key(len) && mid.free[len].len() > 0;
            if reusable {
                &&& got == Some(mid.free[len].last())
                &&& after.end == mid.end
                &&& after.free == mid.free.insert(len, mid.free[len].drop_last())
            } else if mid.end + len > mid.cap {
                &&& got is None
                &&& after.end == mid.end
                &&& after.free == mid.free
            } else {
                &&& got == Some(mid.end)
                &&& after.end == mid.end + len
                &&& after.free == mid.free
            }
        }),
    ensures
        got == Some(off),
        after.end == before.end,
        after.free == before.free.insert(
            len,
            if before.free.contains_key(len) {
                before.free[len]
            } else {
                Seq::<u64>::empty()
            },
        ),
{
    let prior = if before.free.contains_key(len) {
        before.free[len]
    } else {
        Seq::<u64>::empty()
    };
    assert(mid.free[len] == prior.push(off));
    assert(prior.push(off).drop_last() =~= prior);
    assert(after.free =~= before.free.insert(len, prior));
}

} // verus!
