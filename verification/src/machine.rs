//! The placement decision over a machine of several memory domains: which policy places,
//! where residency knowledge lives, and the content hash that pins a session to a domain.
use vstd::prelude::*;

use crate::blob::{BlobId, BlobKind};
use crate::cache::{accelerated, is_accelerated};
use vstd::arithmetic::div_mod::{lemma_mod_multiples_vanish, lemma_mul_mod_noop_left, lemma_small_mod};

verus! {

#[derive(Clone, Copy, PartialEq, Eq, Debug, Structural)]
pub enum Placement {
    /// Spread by load, blind to where the state already is.
    Blind,
    /// Consistent hash on the chain root, so a session always lands on the same domain.
    Sticky,
    /// Run the work where its state already lives.
    Aware,
    /// Run the work where it is worth the most: state already resident, minus what admitting
    /// the rest would displace, minus the handoff it avoids.
    Scored,
}

/// Where residency knowledge lives, and what it costs to consult.
#[derive(Clone, Copy, PartialEq, Eq, Debug, Structural)]
pub enum Control {
    /// Scheduler and ledger in one address space. A decision is a function call.
    Unified,
    /// Scheduler asks every candidate node before placing: always correct, and pays the
    /// crossing on every request.
    Query,
    /// Scheduler places from a view refreshed every `period` requests.
    Gossip { period: u64 },
}

/// The decimal digit character for `d < 10`.
pub open spec fn digit_char(d: int) -> char {
    if d == 0 {
        '0'
    } else if d == 1 {
        '1'
    } else if d == 2 {
        '2'
    } else if d == 3 {
        '3'
    } else if d == 4 {
        '4'
    } else if d == 5 {
        '5'
    } else if d == 6 {
        '6'
    } else if d == 7 {
        '7'
    } else if d == 8 {
        '8'
    } else {
        '9'
    }
}

/// `n` written in decimal, with no leading zeros.
pub open spec fn decimal_of(n: nat) -> Seq<char>
    decreases n,
{
    if n < 10 {
        seq![digit_char(n as int)]
    } else {
        decimal_of(n / 10) + seq![digit_char((n % 10) as int)]
    }
}

fn digit_str(d: u64) -> (s: &'static str)
    requires
        d < 10,
    ensures
        s@ == seq![digit_char(d as int)],
{
    proof {
        reveal_strlit("0");
        reveal_strlit("1");
        reveal_strlit("2");
        reveal_strlit("3");
        reveal_strlit("4");
        reveal_strlit("5");
        reveal_strlit("6");
        reveal_strlit("7");
        reveal_strlit("8");
        reveal_strlit("9");
    }
    let s = if d == 0 {
        "0"
    } else if d == 1 {
        "1"
    } else if d == 2 {
        "2"
    } else if d == 3 {
        "3"
    } else if d == 4 {
        "4"
    } else if d == 5 {
        "5"
    } else if d == 6 {
        "6"
    } else if d == 7 {
        "7"
    } else if d == 8 {
        "8"
    } else {
        "9"
    };
    assert(s@ =~= seq![digit_char(d as int)]);
    s
}

/// `n` in decimal.
pub fn decimal(n: u64) -> (s: String)
    ensures
        s@ == decimal_of(n as nat),
    decreases n,
{
    if n < 10 {
        String::from_str(digit_str(n))
    } else {
        let mut s = decimal(n / 10);
        s.append(digit_str(n % 10));
        s
    }
}

impl Control {
    pub fn label(self) -> (s: String)
        ensures
            s@ == match self {
                Control::Unified => "unified (in-process)"@,
                Control::Query => "query (rpc per decision)"@,
                Control::Gossip { period } => "gossip (every "@ + decimal_of(period as nat) + ")"@,
            },
    {
        match self {
            Control::Unified => String::from_str("unified (in-process)"),
            Control::Query => String::from_str("query (rpc per decision)"),
            Control::Gossip { period } => {
                let mut s = String::from_str("gossip (every ");
                let digits = decimal(period);
                s.append(digits.as_str());
                s.append(")");
                s
            },
        }
    }
}

/// The first eight bytes of an identity, read little-endian.
pub open spec fn le_u64(b: Seq<u8>) -> int {
    b[0] as int + 256 * (b[1] as int + 256 * (b[2] as int + 256 * (b[3] as int + 256 * (b[4] as int
        + 256 * (b[5] as int + 256 * (b[6] as int + 256 * (b[7] as int)))))))
}

/// A chain's content key: the first eight bytes of its root's identity, little-endian, or
/// zero for an empty chain. It identifies the tenant or session the chain belongs to.
pub fn root_key(first: Option<&BlobId>) -> (k: u64)
    ensures
        k == match first {
            Some(id) => le_u64(id@),
            None => 0,
        },
{
    match first {
        None => 0,
        Some(id) => {
            let b = id.as_bytes();
            let mut k: u64 = 0;
            let mut i: usize = 8;
            while i > 0
                invariant
                    i <= 8,
                    b@.len() == 32,
                    k == suffix_value(b@, i as int),
                decreases i,
            {
                i = i - 1;
                proof {
                    suffix_value_bound(b@, i as int);
                    pow256_grows(8 - i);
                    pow256_eight();
                }
                k = k * 256 + b[i] as u64;
            }
            proof {
                suffix_is_le(b@);
            }
            k
        },
    }
}

/// Value of bytes `i..8` read little-endian.
pub open spec fn suffix_value(b: Seq<u8>, i: int) -> int
    decreases 8 - i,
{
    if i >= 8 {
        0
    } else {
        b[i] as int + 256 * suffix_value(b, i + 1)
    }
}

proof fn suffix_value_bound(b: Seq<u8>, i: int)
    requires
        0 <= i <= 8,
        b.len() == 32,
    ensures
        0 <= suffix_value(b, i) < pow256(8 - i),
    decreases 8 - i,
{
    if i < 8 {
        suffix_value_bound(b, i + 1);
        assert(pow256(8 - i) == 256 * pow256(8 - i - 1));
        assert(b[i] as int + 256 * suffix_value(b, i + 1) < 256 * pow256(8 - i - 1)) by (nonlinear_arith)
            requires
                0 <= b[i] < 256,
                0 <= suffix_value(b, i + 1) < pow256(8 - i - 1),
        ;
    }
}

pub open spec fn pow256(n: int) -> int
    decreases n,
{
    if n <= 0 {
        1
    } else {
        256 * pow256(n - 1)
    }
}

proof fn pow256_grows(n: int)
    requires
        0 <= n <= 8,
    ensures
        pow256(n) <= pow256(8),
    decreases 8 - n,
{
    if n < 8 {
        pow256_grows(n + 1);
        assert(pow256(n + 1) == 256 * pow256(n));
        assert(pow256(n) >= 1) by {
            pow256_positive(n);
        }
    }
}

proof fn pow256_eight()
    ensures
        pow256(8) == 0x1_0000_0000_0000_0000,
{
    reveal_with_fuel(pow256, 9);
}

proof fn pow256_positive(n: int)
    ensures
        pow256(n) >= 1,
    decreases n,
{
    if n > 0 {
        pow256_positive(n - 1);
    }
}

proof fn suffix_is_le(b: Seq<u8>)
    ensures
        suffix_value(b, 0) == le_u64(b),
{
    reveal_with_fuel(suffix_value, 9);
}

/// The rendezvous weight of `domain` for `key`: a 64-bit mix of the two, compared across
/// domains so that removing one remaps only the keys that lived on it.
pub open spec fn rendezvous_of(key: u64, domain: u64) -> u64 {
    let x0 = key ^ domain.wrapping_mul(0x9E37_79B9_7F4A_7C15u64);
    let x1 = (x0 ^ (x0 >> 30u64)).wrapping_mul(0xBF58_476D_1CE4_E5B9u64);
    let x2 = (x1 ^ (x1 >> 27u64)).wrapping_mul(0x94D0_49BB_1331_11EBu64);
    x2 ^ (x2 >> 31u64)
}

/// Multiplying by an odd constant modulo 2^64 is undone by multiplying by its inverse `inv`,
/// where `c * inv` is one more than a multiple `k` of 2^64.
proof fn mul_is_undone(a: u64, c: u64, inv: u64, k: int)
    requires
        k >= 0,
        c * inv == 1 + k * 0x1_0000_0000_0000_0000int,
    ensures
        (a.wrapping_mul(c) as int * inv) % 0x1_0000_0000_0000_0000int == a,
{
    let m: int = 0x1_0000_0000_0000_0000int;
    let p: int = a * c;
    assert(a.wrapping_mul(c) == p % m);
    lemma_mul_mod_noop_left(p, inv as int, m);
    assert(p * inv == a + m * (a * k)) by (nonlinear_arith)
        requires
            p == a * c,
            c * inv == 1 + k * m,
    ;
    lemma_mod_multiples_vanish(a * k, a as int, m);
    lemma_small_mod(a as nat, m as nat);
}

/// Multiplying by an odd constant modulo 2^64 never maps two words to one.
proof fn mul_is_injective(a: u64, b: u64, c: u64, inv: u64, k: int)
    requires
        k >= 0,
        c * inv == 1 + k * 0x1_0000_0000_0000_0000int,
        a.wrapping_mul(c) == b.wrapping_mul(c),
    ensures
        a == b,
{
    mul_is_undone(a, c, inv, k);
    mul_is_undone(b, c, inv, k);
}

proof fn xorshift30_is_injective(a: u64, b: u64)
    by (bit_vector)
    requires
        a ^ (a >> 30u64) == b ^ (b >> 30u64),
    ensures
        a == b,
{
}

proof fn xorshift27_is_injective(a: u64, b: u64)
    by (bit_vector)
    requires
        a ^ (a >> 27u64) == b ^ (b >> 27u64),
    ensures
        a == b,
{
}

proof fn xorshift31_is_injective(a: u64, b: u64)
    by (bit_vector)
    requires
        a ^ (a >> 31u64) == b ^ (b >> 31u64),
    ensures
        a == b,
{
}

proof fn xor_is_injective(a: u64, b: u64, c: u64)
    by (bit_vector)
    requires
        a ^ c == b ^ c,
    ensures
        a == b,
{
}

/// Two different session keys never weigh the same on a domain: the mix is a bijection of the
/// key for each domain, so the weight depends on the key and different sessions spread over
/// the domains rather than all landing on one.
pub proof fn different_keys_weigh_differently(key1: u64, key2: u64, domain: u64)
    requires
        key1 != key2,
    ensures
        rendezvous_of(key1, domain) != rendezvous_of(key2, domain),
{
    let d = domain.wrapping_mul(0x9E37_79B9_7F4A_7C15u64);
    let a0 = key1 ^ d;
    let b0 = key2 ^ d;
    let a1 = (a0 ^ (a0 >> 30u64)).wrapping_mul(0xBF58_476D_1CE4_E5B9u64);
    let b1 = (b0 ^ (b0 >> 30u64)).wrapping_mul(0xBF58_476D_1CE4_E5B9u64);
    let a2 = (a1 ^ (a1 >> 27u64)).wrapping_mul(0x94D0_49BB_1331_11EBu64);
    let b2 = (b1 ^ (b1 >> 27u64)).wrapping_mul(0x94D0_49BB_1331_11EBu64);
    if rendezvous_of(key1, domain) == rendezvous_of(key2, domain) {
        assert(a2 ^ (a2 >> 31u64) == b2 ^ (b2 >> 31u64));
        xorshift31_is_injective(a2, b2);
        mul_is_injective(
            a1 ^ (a1 >> 27u64),
            b1 ^ (b1 >> 27u64),
            0x94D0_49BB_1331_11EBu64,
            0x3196_42B2_D24D_8EC3u64,
            2077064247507883091int,
        );
        xorshift27_is_injective(a1, b1);
        mul_is_injective(
            a0 ^ (a0 >> 30u64),
            b0 ^ (b0 >> 30u64),
            0xBF58_476D_1CE4_E5B9u64,
            0x96DE_1B17_3F11_9089u64,
            8125545580553827436int,
        );
        xorshift30_is_injective(a0, b0);
        xor_is_injective(key1, key2, d);
    }
}

/// The rendezvous weight of `domain` for `key`.
pub fn rendezvous(key: u64, domain: usize) -> (w: u64)
    ensures
        w == rendezvous_of(key, domain as u64),
{
    let mut x = key ^ (domain as u64).wrapping_mul(0x9E37_79B9_7F4A_7C15);
    x = (x ^ (x >> 30)).wrapping_mul(0xBF58_476D_1CE4_E5B9);
    x = (x ^ (x >> 27)).wrapping_mul(0x94D0_49BB_1331_11EB);
    x ^ (x >> 31)
}

/// The rendezvous weight of a candidate domain for `key`.
pub open spec fn weight(key: u64, d: usize) -> u64 {
    rendezvous_of(key, d as u64)
}

/// `d` sits at position `i` of `c`, no candidate outweighs it for `key`, and every candidate
/// after it weighs strictly less.
pub open spec fn wins_at(key: u64, c: Seq<usize>, d: usize, i: int) -> bool {
    &&& 0 <= i < c.len()
    &&& c[i] == d
    &&& forall|j: int| 0 <= j < c.len() ==> weight(key, c[j]) <= weight(key, d)
    &&& forall|j: int| i < j < c.len() ==> weight(key, c[j]) < weight(key, d)
}

/// `d` is the rendezvous choice among `c` for `key`: the heaviest candidate, the last one on a
/// tie.
pub open spec fn rendezvous_winner(key: u64, c: Seq<usize>, d: usize) -> bool {
    exists|i: int| wins_at(key, c, d, i)
}

/// The rendezvous choice is unique.
pub proof fn rendezvous_winner_is_unique(key: u64, c: Seq<usize>, d1: usize, d2: usize)
    requires
        rendezvous_winner(key, c, d1),
        rendezvous_winner(key, c, d2),
    ensures
        d1 == d2,
{
    let i1 = choose|i: int| wins_at(key, c, d1, i);
    let i2 = choose|i: int| wins_at(key, c, d2, i);
    if i1 < i2 {
        assert(rendezvous_of(key, c[i2] as u64) < rendezvous_of(key, d1 as u64));
        assert(rendezvous_of(key, c[i1] as u64) <= rendezvous_of(key, d2 as u64));
    } else if i2 < i1 {
        assert(rendezvous_of(key, c[i1] as u64) < rendezvous_of(key, d2 as u64));
        assert(rendezvous_of(key, c[i2] as u64) <= rendezvous_of(key, d1 as u64));
    }
}

/// Removing a domain remaps only the keys that lived on it: taking any other candidate out
/// leaves a key's rendezvous choice where it was.
pub proof fn removing_a_domain_moves_only_its_keys(key: u64, c: Seq<usize>, d: usize, p: int)
    requires
        rendezvous_winner(key, c, d),
        0 <= p < c.len(),
        c[p] != d,
    ensures
        rendezvous_winner(key, c.remove(p), d),
{
    let i = choose|i: int| wins_at(key, c, d, i);
    let r = c.remove(p);
    let k = if p < i { i - 1 } else { i };
    assert(r[k] == d);
    assert forall|j: int| 0 <= j < r.len() implies weight(key, r[j]) <= weight(key, d) by {
        if j < p {
            assert(r[j] == c[j]);
        } else {
            assert(r[j] == c[j + 1]);
        }
    }
    assert forall|j: int| k < j < r.len() implies weight(key, r[j]) < weight(key, d) by {
        if j < p {
            assert(r[j] == c[j]);
        } else {
            assert(r[j] == c[j + 1]);
        }
    }
    assert(wins_at(key, r, d, k));
}

/// The candidate with the largest rendezvous weight for `key`; on equal weights the later
/// candidate wins. `None` when there are no candidates.
pub fn rendezvous_pick(key: u64, candidates: &[usize]) -> (d: Option<usize>)
    ensures
        candidates@.len() == 0 ==> d is None,
        candidates@.len() > 0 ==> d is Some && rendezvous_winner(key, candidates@, d->0),
{
    if candidates.len() == 0 {
        return None;
    }
    let mut at: usize = 0;
    let mut best = candidates[0];
    let mut best_w = rendezvous(key, best);
    let mut i: usize = 1;
    while i < candidates.len()
        invariant
            1 <= i <= candidates@.len(),
            at < i,
            candidates@[at as int] == best,
            best_w == rendezvous_of(key, best as u64),
            forall|j: int| 0 <= j < i ==> rendezvous_of(key, candidates@[j] as u64) <= best_w,
            forall|j: int| at < j < i ==> rendezvous_of(key, candidates@[j] as u64) < best_w,
        decreases candidates@.len() - i,
    {
        let w = rendezvous(key, candidates[i]);
        if w >= best_w {
            at = i;
            best = candidates[i];
            best_w = w;
        }
        i = i + 1;
    }
    assert(wins_at(key, candidates@, best, at as int));
    Some(best)
}


/// Domains that can serve a decode-bearing request: the active domains whose node can decode,
/// or every active domain if none can, so a misconfigured cluster behaves as it always did.
pub fn decode_pool(active: &[usize], can_decode: &[bool]) -> (pool: Vec<usize>)
    requires
        forall|i: int| 0 <= i < active@.len() ==> active@[i] < can_decode@.len(),
    ensures
        pool@ == if active@.filter(|d: usize| can_decode@[d as int]).len() > 0 {
            active@.filter(|d: usize| can_decode@[d as int])
        } else {
            active@
        },
{
    let mut pool: Vec<usize> = Vec::new();
    let mut i: usize = 0;
    while i < active.len()
        invariant
            i <= active@.len(),
            forall|j: int| 0 <= j < active@.len() ==> active@[j] < can_decode@.len(),
            pool@ == active@.take(i as int).filter(|d: usize| can_decode@[d as int]),
        decreases active@.len() - i,
    {
        proof {
            reveal(Seq::filter);
            assert(active@.take(i + 1).drop_last() =~= active@.take(i as int));
        }
        if can_decode[active[i]] {
            pool.push(active[i]);
        }
        i = i + 1;
    }
    proof {
        assert(active@.take(active@.len() as int) =~= active@);
    }
    if pool.len() == 0 {
        let mut all: Vec<usize> = Vec::new();
        let mut j: usize = 0;
        while j < active.len()
            invariant
                j <= active@.len(),
                all@ == active@.take(j as int),
            decreases active@.len() - j,
        {
            proof {
                assert(active@.take(j + 1) =~= active@.take(j as int).push(active@[j as int]));
            }
            all.push(active[j]);
            j = j + 1;
        }
        proof {
            assert(active@.take(active@.len() as int) =~= active@);
        }
        all
    } else {
        pool
    }
}

/// `p` is the first position of `x` in `s`.
pub open spec fn first_at(s: Seq<usize>, x: usize, p: int) -> bool {
    0 <= p < s.len() && s[p] == x && forall|j: int| 0 <= j < p ==> s[j] != x
}

/// What taking `victim` out of an active list does: it migrates exactly when it was active
/// beside another domain, and then leaves the list without its first occurrence; otherwise
/// the list stays as it was.
pub open spec fn retired(before: Seq<usize>, victim: usize, migrate: bool, after: Seq<usize>) -> bool {
    &&& migrate == (before.contains(victim) && before.len() > 1)
    &&& !migrate ==> after == before
    &&& migrate ==> exists|p: int| first_at(before, victim, p) && after == before.remove(p)
}

/// Removing one position of a list with no domain twice leaves a list with no domain twice
/// that no longer holds the removed domain.
proof fn lemma_remove_distinct(s: Seq<usize>, p: int)
    requires
        s.no_duplicates(),
        0 <= p < s.len(),
    ensures
        s.remove(p).no_duplicates(),
        !s.remove(p).contains(s[p]),
{
    let r = s.remove(p);
    assert forall|i: int| 0 <= i < r.len() implies r[i] == (if i < p { s[i] } else { s[i + 1] })
        by {}
    assert forall|i: int, j: int| 0 <= i < r.len() && 0 <= j < r.len() && i != j implies r[i]
        != r[j] by {
        let a = if i < p { i } else { i + 1 };
        let b = if j < p { j } else { j + 1 };
        assert(r[i] == s[a] && r[j] == s[b] && a != b);
    }
    if r.contains(s[p]) {
        let i = choose|i: int| 0 <= i < r.len() && r[i] == s[p];
        let a = if i < p { i } else { i + 1 };
        assert(s[a] == s[p] && a != p);
    }
}

/// Take `victim` out of service. Returns whether its state must now migrate to the domains
/// still active: false, with the active list unchanged, when it was not active or when it was
/// the only active domain, which stays in service rather than leave the cluster empty. A list
/// with no domain twice keeps that shape, and no longer holds a domain that migrated.
pub fn retire(active: &mut Vec<usize>, victim: usize) -> (migrate: bool)
    ensures
        retired(old(active)@, victim, migrate, final(active)@),
        old(active)@.no_duplicates() ==> final(active)@.no_duplicates(),
        old(active)@.no_duplicates() && migrate ==> !final(active)@.contains(victim),
{
    let ghost before = active@;
    let mut pos: usize = 0;
    while pos < active.len()
        invariant
            active@ == before,
            pos <= active@.len(),
            forall|j: int| 0 <= j < pos ==> active@[j] != victim,
        ensures
            active@ == before,
            pos <= active@.len(),
            forall|j: int| 0 <= j < pos ==> active@[j] != victim,
            pos == active@.len() || active@[pos as int] == victim,
        decreases active@.len() - pos,
    {
        if active[pos] == victim {
            break;
        }
        pos = pos + 1;
    }
    if pos == active.len() {
        return false;
    }
    assert(first_at(before, victim, pos as int));
    assert(before.contains(victim));
    proof {
        if before.no_duplicates() {
            lemma_remove_distinct(before, pos as int);
        }
    }
    active.remove(pos);
    if active.len() == 0 {
        active.push(victim);
        assert(active@ =~= before);
        return false;
    }
    true
}

/// Draining is idempotent: once a domain has been taken out of an active list with no domain
/// twice, taking it out again migrates nothing and leaves the list as it was.
pub proof fn retiring_twice_migrates_once(
    before: Seq<usize>,
    mid: Seq<usize>,
    after: Seq<usize>,
    victim: usize,
    first: bool,
    second: bool,
)
    requires
        before.no_duplicates(),
        retired(before, victim, first, mid),
        retired(mid, victim, second, after),
    ensures
        !second,
        after == mid,
        mid.no_duplicates(),
{
    if first {
        let p = choose|p: int| first_at(before, victim, p) && mid == before.remove(p);
        lemma_remove_distinct(before, p);
    }
}

/// Whether a request needs a domain that can decode: it is charged tokens, or its chain is
/// an accelerated class's. Function and service work may run on a host-only node.
pub fn needs_decode(tokens: u64, first: Option<BlobKind>) -> (n: bool)
    ensures
        n == (tokens > 0 || (first is Some && is_accelerated(first->0))),
{
    tokens > 0 || match first {
        Some(kind) => accelerated(kind),
        None => false,
    }
}

/// The domain a policy picks knowing nothing about flows: round-robin over the candidates
/// for `Blind`, the content hash's domain for `Sticky`, and for the residency-aware policies
/// the domain holding the most of the request when it holds anything at all.
pub fn policy_target(
    placement: Placement,
    next_unit: &mut usize,
    affinity: usize,
    best: usize,
    value: u64,
    candidates: &[usize],
) -> (d: usize)
    requires
        placement == Placement::Blind ==> candidates@.len() > 0 && *old(next_unit) < usize::MAX,
    ensures
        *final(next_unit) == if placement == Placement::Blind {
            *old(next_unit) + 1
        } else {
            *old(next_unit) as int
        },
        d == match placement {
            Placement::Blind => candidates@[(*old(next_unit) as int) % (candidates@.len() as int)],
            Placement::Sticky => affinity,
            Placement::Aware | Placement::Scored => if value > 0 {
                best
            } else {
                affinity
            },
        },
{
    match placement {
        Placement::Blind => {
            let d = candidates[*next_unit % candidates.len()];
            *next_unit = *next_unit + 1;
            d
        },
        Placement::Sticky => affinity,
        Placement::Aware | Placement::Scored => {
            if value > 0 {
                best
            } else {
                affinity
            }
        },
    }
}

} // verus!
