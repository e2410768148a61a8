//! Seeded permutation of `[0, len)` used to decorrelate the order in which
//! requests are submitted from the order in which their replies are awaited.
use vstd::arithmetic::div_mod::lemma_add_mod_noop;
use vstd::prelude::*;

verus! {

/// Multiplier of the 64-bit linear-congruential generator.
pub const LCG_MULTIPLIER: u64 = 6364136223846793005;

/// State used in place of a zero seed, from which the generator could not move.
pub const ZERO_SEED_REPLACEMENT: u64 = 1;

/// One step of the generator: `s * a + 1` modulo 2^64.
pub open spec fn lcg_step(s: u64) -> u64 {
    ((s as nat * LCG_MULTIPLIER as nat + 1) % 0x1_0000_0000_0000_0000) as u64
}

/// The generator state a shuffle starts from.
pub open spec fn initial_state(seed: u64) -> u64 {
    if seed == 0 {
        ZERO_SEED_REPLACEMENT
    } else {
        seed
    }
}

/// `0, 1, ..., n - 1`.
pub open spec fn identity_order(n: nat) -> Seq<usize> {
    Seq::new(n, |j: int| j as usize)
}

/// `s` with the entries at `i` and `j` exchanged.
pub open spec fn swapped(s: Seq<usize>, i: int, j: int) -> Seq<usize> {
    s.update(i, s[j]).update(j, s[i])
}

/// Fisher-Yates from position `i` down to position 1, drawing each swap
/// target from the generator, which starts in state `s`.
pub open spec fn fisher_yates(order: Seq<usize>, s: u64, i: nat) -> Seq<usize>
    decreases i,
{
    if i == 0 {
        order
    } else {
        let next = lcg_step(s);
        let r = (next as nat % (i + 1)) as int;
        fisher_yates(swapped(order, i as int, r), next, (i - 1) as nat)
    }
}

/// The permutation that `shuffle_indices(len, seed)` returns.
pub open spec fn shuffle_of(len: nat, seed: u64) -> Seq<usize> {
    if len <= 1 {
        identity_order(len)
    } else {
        fisher_yates(identity_order(len), initial_state(seed), (len - 1) as nat)
    }
}

/// `s` holds each of `0, ..., n - 1` exactly once: `n` entries, each below
/// `n`, no two equal.
pub open spec fn is_permutation(s: Seq<usize>, n: nat) -> bool {
    &&& s.len() == n
    &&& forall|k: int| 0 <= k < s.len() ==> (#[trigger] s[k] as nat) < n
    &&& forall|j: int, k: int| 0 <= j < s.len() && 0 <= k < s.len() && j != k ==> s[j] != s[k]
}

proof fn lemma_identity_is_permutation(n: nat)
    requires
        n <= usize::MAX + 1,
    ensures
        is_permutation(identity_order(n), n),
{
}

proof fn lemma_swap_keeps_permutation(s: Seq<usize>, n: nat, i: int, j: int)
    requires
        is_permutation(s, n),
        0 <= i < n,
        0 <= j < n,
    ensures
        is_permutation(swapped(s, i, j), n),
{
}

proof fn lemma_fisher_yates_keeps_permutation(s: Seq<usize>, st: u64, i: nat, n: nat)
    requires
        is_permutation(s, n),
        i < n,
    ensures
        is_permutation(fisher_yates(s, st, i), n),
    decreases i,
{
    if i > 0 {
        let next = lcg_step(st);
        let r = (next as nat % (i + 1)) as int;
        lemma_swap_keeps_permutation(s, n, i as int, r);
        lemma_fisher_yates_keeps_permutation(swapped(s, i as int, r), next, (i - 1) as nat, n);
    }
}

/// What `shuffle_indices` returns is a permutation of its range.
pub proof fn lemma_shuffle_is_permutation(len: nat, seed: u64)
    requires
        len <= usize::MAX + 1,
    ensures
        is_permutation(shuffle_of(len, seed), len),
{
    lemma_identity_is_permutation(len);
    if len > 1 {
        lemma_fisher_yates_keeps_permutation(identity_order(len), initial_state(seed), (len - 1) as nat, len);
    }
}

/// The order depends on the length and the seed alone, and a zero seed
/// gives the same order as seed `ZERO_SEED_REPLACEMENT`.
pub proof fn lemma_shuffle_deterministic(len: nat, seed_a: u64, seed_b: u64)
    requires
        initial_state(seed_a) == initial_state(seed_b),
    ensures
        shuffle_of(len, seed_a) == shuffle_of(len, seed_b),
        shuffle_of(len, 0) == shuffle_of(len, ZERO_SEED_REPLACEMENT),
{
}

/// Shuffling no index gives nothing, and shuffling one gives it back, for
/// every seed.
pub proof fn lemma_shuffle_small(seed: u64)
    ensures
        shuffle_of(0, seed) == Seq::<usize>::empty(),
        shuffle_of(1, seed) == seq![0usize],
{
    assert(shuffle_of(0, seed) =~= Seq::<usize>::empty());
    assert(shuffle_of(1, seed) =~= seq![0usize]);
}

/// For more than one index, the order from a zero seed is not constant: no
/// two of its entries are equal.
pub proof fn lemma_zero_seed_not_constant(len: nat)
    requires
        1 < len <= usize::MAX + 1,
    ensures
        shuffle_of(len, 0)[0] != shuffle_of(len, 0)[1],
{
    lemma_shuffle_is_permutation(len, 0);
}

proof fn lemma_fisher_yates_keeps_tail(o: Seq<usize>, s: u64, i: nat, j: int)
    requires
        i < j < o.len(),
    ensures
        fisher_yates(o, s, i).len() == o.len(),
        fisher_yates(o, s, i)[j] == o[j],
    decreases i,
{
    if i > 0 {
        let next = lcg_step(s);
        let r = (next as nat % (i + 1)) as int;
        lemma_fisher_yates_keeps_tail(swapped(o, i as int, r), next, (i - 1) as nat, j);
    }
}

/// A zero seed does not return the identity order for any length above one
/// that does not divide `LCG_MULTIPLIER + 2`: the first swap puts a value
/// other than `len - 1` in the last position, and no later swap touches it.
pub proof fn lemma_zero_seed_not_identity(len: nat)
    requires
        1 < len <= usize::MAX + 1,
        (LCG_MULTIPLIER as nat + 2) % len != 0,
    ensures
        shuffle_of(len, 0)[len - 1] != (len - 1) as usize,
        shuffle_of(len, 0) != identity_order(len),
{
    let id = identity_order(len);
    let c = lcg_step(ZERO_SEED_REPLACEMENT);
    assert(c as nat == LCG_MULTIPLIER as nat + 1);
    let r = (c as nat % len) as int;
    let sw = swapped(id, len - 1, r);
    assert(sw[len - 1] == r as usize);
    if len - 2 > 0 {
        lemma_fisher_yates_keeps_tail(sw, c, (len - 2) as nat, len - 1);
    }
    assert(shuffle_of(len, 0) == fisher_yates(sw, c, (len - 2) as nat));
    if r == len - 1 {
        vstd::arithmetic::div_mod::lemma_add_mod_noop(c as int, 1, len as int);
        vstd::arithmetic::div_mod::lemma_small_mod(1, len);
        vstd::arithmetic::div_mod::lemma_mod_self_0(len as int);
        assert(false);
    }
    assert(id[len - 1] == (len - 1) as usize);
}

/// Advances the generator state and returns the new state.
pub fn lcg_next(state: &mut u64) -> (r: u64)
    ensures
        *final(state) == lcg_step(*old(state)),
        r == *final(state),
{
    let s: u64 = *state;
    let m: u64 = s.wrapping_mul(LCG_MULTIPLIER);
    let n: u64 = m.wrapping_add(1);
    proof {
        let p = 0x1_0000_0000_0000_0000int;
        let x = s as int * LCG_MULTIPLIER as int;
        assert(m as int == x % p);
        lemma_add_mod_noop(x, 1, p);
        assert(1int % p == 1);
        assert((m as int % p) == m as int);
        assert(n as int == (m as int + 1) % p);
    }
    *state = n;
    n
}

/// Returns `[0, len)` shuffled by Fisher-Yates from the last position down,
/// each swap target drawn from the generator started at `seed` (a zero seed
/// starts it at `ZERO_SEED_REPLACEMENT`).
pub fn shuffle_indices(len: usize, seed: u64) -> (r: Vec<usize>)
    ensures
        r@ == shuffle_of(len as nat, seed),
        is_permutation(r@, len as nat),
{
    proof {
        lemma_shuffle_is_permutation(len as nat, seed);
    }
    let mut order: Vec<usize> = Vec::new();
    let mut k: usize = 0;
    while k < len
        invariant
            k <= len,
            order@ == identity_order(k as nat).take(k as int),
        decreases len - k,
    {
        order.push(k);
        k = k + 1;
        assert(order@ =~= identity_order(k as nat).take(k as int));
    }
    assert(order@ =~= identity_order(len as nat));
    if len <= 1 {
        return order;
    }
    let mut s: u64 = if seed == 0 {
        ZERO_SEED_REPLACEMENT
    } else {
        seed
    };
    let mut i: usize = len - 1;
    while i > 0
        invariant
            i < len,
            order@.len() == len,
            fisher_yates(order@, s, i as nat) == shuffle_of(len as nat, seed),
        decreases i,
    {
        let ghost before = order@;
        let next: u64 = lcg_next(&mut s);
        let r: usize = (next % ((i as u64) + 1)) as usize;
        let a: usize = order[i];
        let b: usize = order[r];
        order[i] = b;
        order[r] = a;
        assert(order@ =~= swapped(before, i as int, r as int));
        i = i - 1;
    }
    order
}

} // verus!
