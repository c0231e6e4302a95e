//! The boundaries an orchestrator decision can cross, from a direct call to a gRPC round
//! trip. What each costs is measured on the host, outside this library.
use vstd::prelude::*;

verus! {

#[derive(Clone, Copy, PartialEq, Eq, Debug, Structural)]
pub enum Boundary {
    /// No boundary: a direct call.
    Native,
    /// A warm WASM instance, called through a typed function.
    Wasm,
    /// Shared memory with a spin-polled sequence protocol.
    Ring,
    /// Irreducible user to kernel to user transition, no payload.
    Syscall,
    /// Syscall plus a kernel-buffer copy, same thread.
    Pipe,
    /// Syscall, copy, and a wakeup of a thread that was blocked.
    UnixSocket,
    /// Adds the loopback network stack.
    TcpLoopback,
    /// A bidirectional-stream callout shaped like Envoy's `ext_proc`, on an open stream.
    ExtProc,
    /// Adds HTTP/2 framing and protobuf encode/decode, and opens a stream per call.
    Grpc,
}

impl Boundary {
    pub fn label(self) -> (s: &'static str)
        ensures
            s@ == match self {
                Boundary::Native => "native call"@,
                Boundary::Wasm => "wasm (warm instance)"@,
                Boundary::Ring => "shared ring (spin)"@,
                Boundary::Syscall => "syscall floor"@,
                Boundary::Pipe => "pipe (same thread)"@,
                Boundary::UnixSocket => "unix socket RTT"@,
                Boundary::TcpLoopback => "TCP loopback RTT"@,
                Boundary::ExtProc => "ext_proc callout"@,
                Boundary::Grpc => "gRPC unary RTT"@,
            },
    {
        match self {
            Boundary::Native => "native call",
            Boundary::Wasm => "wasm (warm instance)",
            Boundary::Ring => "shared ring (spin)",
            Boundary::Syscall => "syscall floor",
            Boundary::Pipe => "pipe (same thread)",
            Boundary::UnixSocket => "unix socket RTT",
            Boundary::TcpLoopback => "TCP loopback RTT",
            Boundary::ExtProc => "ext_proc callout",
            Boundary::Grpc => "gRPC unary RTT",
        }
    }
}


/// Fold one repetition's samples into the best seen so far: position by position, keep the
/// smaller time, over the positions both have. A microbenchmark can only be disturbed
/// upward, so the minimum is the estimate.
pub fn fold_min(best: &mut Vec<(usize, u64)>, sample: &[(usize, u64)])
    ensures
        final(best)@.len() == old(best)@.len(),
        forall|j: int|
            0 <= j < final(best)@.len() ==> #[trigger] final(best)@[j] == if j < sample@.len() {
                (
                    old(best)@[j].0,
                    if sample@[j].1 < old(best)@[j].1 {
                        sample@[j].1
                    } else {
                        old(best)@[j].1
                    },
                )
            } else {
                old(best)@[j]
            },
{
    let ghost orig = best@;
    let mut j: usize = 0;
    while j < best.len() && j < sample.len()
        invariant
            j <= best@.len(),
            best@.len() == orig.len(),
            forall|i: int|
                0 <= i < best@.len() ==> #[trigger] best@[i] == if i < j && i < sample@.len() {
                    (orig[i].0, if sample@[i].1 < orig[i].1 { sample@[i].1 } else { orig[i].1 })
                } else {
                    orig[i]
                },
        decreases best@.len() - j,
    {
        let (n, ns) = best[j];
        let t = sample[j].1;
        best.set(j, (n, if t < ns { t } else { ns }));
        j = j + 1;
    }
}

/// Fold one repetition's samples into the worst seen so far: position by position, keep the
/// larger time, over the positions both have. Worst over best is the measurement's spread.
pub fn fold_max(worst: &mut Vec<(usize, u64)>, sample: &[(usize, u64)])
    ensures
        final(worst)@.len() == old(worst)@.len(),
        forall|j: int|
            0 <= j < final(worst)@.len() ==> #[trigger] final(worst)@[j] == if j < sample@.len() {
                (
                    old(worst)@[j].0,
                    if sample@[j].1 > old(worst)@[j].1 {
                        sample@[j].1
                    } else {
                        old(worst)@[j].1
                    },
                )
            } else {
                old(worst)@[j]
            },
{
    let ghost orig = worst@;
    let mut j: usize = 0;
    while j < worst.len() && j < sample.len()
        invariant
            j <= worst@.len(),
            worst@.len() == orig.len(),
            forall|i: int|
                0 <= i < worst@.len() ==> #[trigger] worst@[i] == if i < j && i < sample@.len() {
                    (orig[i].0, if sample@[i].1 > orig[i].1 { sample@[i].1 } else { orig[i].1 })
                } else {
                    orig[i]
                },
        decreases worst@.len() - j,
    {
        let (n, ns) = worst[j];
        let t = sample[j].1;
        worst.set(j, (n, if t > ns { t } else { ns }));
        j = j + 1;
    }
}

} // verus!
