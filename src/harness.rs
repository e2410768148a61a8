//! The concurrency stress harness: a batch of requests submitted in index
//! order and awaited in a shuffled order, each reply checked against the
//! payload of the request it answers.
use crate::shuffle::{is_permutation, shuffle_indices, shuffle_of};
use vstd::prelude::*;
use vstd::string::StringSliceAdditionalSpecFns;

verus! {

/// Requests per batch.
pub const CALLS_PER_BATCH: usize = 1000;

/// Batches run at once.
pub const BATCH_COUNT: usize = 10;

/// Seed used when the sandbox does not hand back eight random bytes.
pub const FALLBACK_SEED: u64 = 0x9E3779B97F4A7C15;

/// Spreads batch numbers over the seed space.
pub const BATCH_SEED_STRIDE: u64 = 0x9E3779B97F4A7C15;

/// Every request payload starts with these bytes.
pub const MESSAGE_PREFIX: &'static str = "Hello from WASI! #";

/// The ASCII digit for `d < 10`.
pub open spec fn digit(d: nat) -> u8 {
    (48 + d) as u8
}

/// The decimal digits of `n`, most significant first, without leading zeros.
pub open spec fn decimal(n: nat) -> Seq<u8>
    decreases n,
{
    if n < 10 {
        seq![digit(n)]
    } else {
        decimal(n / 10).push(digit(n % 10))
    }
}

/// The payload of request `i` of a batch.
pub open spec fn message_of(i: nat) -> Seq<u8> {
    MESSAGE_PREFIX.spec_bytes() + decimal(i)
}

/// The payloads of a batch of `count` requests, by index.
pub open spec fn payloads(count: nat) -> Seq<Seq<u8>> {
    Seq::new(count, |i: int| message_of(i as nat))
}

/// Replies read back in `order` (the `k`-th reply answers request
/// `order[k]`) each match the payload of the request they answer.
pub open spec fn replies_match(expected: Seq<Seq<u8>>, order: Seq<usize>, replies: Seq<Seq<u8>>) -> bool {
    &&& replies.len() == order.len()
    &&& forall|k: int| 0 <= k < replies.len() ==> #[trigger] replies[k] == expected[order[k] as int]
}

/// Little-endian value of a byte sequence.
pub open spec fn le_value(b: Seq<u8>) -> nat
    decreases b.len(),
{
    if b.len() == 0 {
        0
    } else {
        b[0] as nat + 256 * le_value(b.drop_first())
    }
}

/// The seed drawn from eight random bytes, or the fallback for any other count.
pub open spec fn seed_of_bytes(b: Seq<u8>) -> u64 {
    if b.len() == 8 {
        le_value(b) as u64
    } else {
        FALLBACK_SEED
    }
}

/// The seed of batch `b` when runs are made reproducible from `seed`.
pub open spec fn batch_seed_of(seed: u64, b: usize) -> u64 {
    seed ^ vstd::wrapping::u64_specs::wrapping_mul(b as u64, BATCH_SEED_STRIDE)
}

proof fn lemma_decimal_len(n: nat)
    ensures
        decimal(n).len() >= 1,
        n < 10 <==> decimal(n).len() == 1,
    decreases n,
{
    if n >= 10 {
        lemma_decimal_len(n / 10);
    }
}

proof fn lemma_decimal_injective(a: nat, b: nat)
    requires
        decimal(a) == decimal(b),
    ensures
        a == b,
    decreases a,
{
    lemma_decimal_len(a);
    lemma_decimal_len(b);
    if a >= 10 && b >= 10 {
        let da = decimal(a);
        assert(da.last() == digit(a % 10));
        assert(decimal(b).last() == digit(b % 10));
        assert(da.drop_last() =~= decimal(a / 10));
        assert(decimal(b).drop_last() =~= decimal(b / 10));
        lemma_decimal_injective(a / 10, b / 10);
        assert(a % 10 == b % 10);
        vstd::arithmetic::div_mod::lemma_fundamental_div_mod(a as int, 10);
        vstd::arithmetic::div_mod::lemma_fundamental_div_mod(b as int, 10);
        assert(a == b);
    } else {
        assert(decimal(a).len() == decimal(b).len());
        assert(a < 10 && b < 10);
        assert(decimal(a)[0] == digit(a));
        assert(decimal(a)[0] == decimal(b)[0]);
    }
}

/// Distinct requests carry distinct payloads, so a reply delivered to the
/// wrong request is caught by the check.
pub proof fn lemma_payloads_distinct(i: nat, j: nat)
    requires
        i != j,
    ensures
        message_of(i) != message_of(j),
{
    if message_of(i) == message_of(j) {
        let p = MESSAGE_PREFIX.spec_bytes();
        assert(decimal(i) =~= message_of(i).subrange(p.len() as int, message_of(i).len() as int));
        assert(decimal(j) =~= message_of(j).subrange(p.len() as int, message_of(j).len() as int));
        lemma_decimal_injective(i, j);
    }
}

/// A batch of any size, read back in any order: when every reply is the
/// echo of the request it answers, every check passes.
pub proof fn lemma_echoed_batch_passes(count: nat, order: Seq<usize>, replies: Seq<Seq<u8>>)
    requires
        is_permutation(order, count),
        replies.len() == count,
        forall|k: int| 0 <= k < count ==> #[trigger] replies[k] == message_of(order[k] as nat),
    ensures
        replies_match(payloads(count), order, replies),
{
}

/// A reply that does not match the payload of the request it answers.
#[derive(Clone, Copy, PartialEq, Eq, Structural, Debug)]
pub struct ReplyMismatch {
    /// Index, in submission order, of the request whose reply was wrong.
    pub index: usize,
}

/// Compares two byte strings.
pub fn bytes_equal(a: &[u8], b: &[u8]) -> (r: bool)
    ensures
        r == (a@ == b@),
{
    if a.len() != b.len() {
        return false;
    }
    let mut k: usize = 0;
    while k < a.len()
        invariant
            a@.len() == b@.len(),
            k <= a@.len(),
            forall|j: int| 0 <= j < k ==> a@[j] == b@[j],
        decreases a@.len() - k,
    {
        if a[k] != b[k] {
            return false;
        }
        k = k + 1;
    }
    assert(a@ =~= b@);
    true
}

/// Writes the decimal digits of `n` after the bytes already in `out`.
fn push_decimal(out: &mut Vec<u8>, n: usize)
    ensures
        final(out)@ == old(out)@ + decimal(n as nat),
    decreases n,
{
    if n >= 10 {
        push_decimal(out, n / 10);
    }
    out.push((48 + n % 10) as u8);
    proof {
        if n >= 10 {
            assert(decimal(n as nat) == decimal((n / 10) as nat).push(digit((n % 10) as nat)));
        }
        assert(final(out)@ =~= old(out)@ + decimal(n as nat));
    }
}

/// The payload of request `i`: the fixed prefix followed by `i` in decimal.
pub fn batch_message(i: usize) -> (r: Vec<u8>)
    ensures
        r@ == message_of(i as nat),
{
    let prefix: &[u8] = MESSAGE_PREFIX.as_bytes();
    let mut out: Vec<u8> = Vec::new();
    let mut k: usize = 0;
    while k < prefix.len()
        invariant
            k <= prefix@.len(),
            out@ == prefix@.subrange(0, k as int),
        decreases prefix@.len() - k,
    {
        out.push(prefix[k]);
        k = k + 1;
        assert(out@ =~= prefix@.subrange(0, k as int));
    }
    assert(out@ =~= prefix@);
    push_decimal(&mut out, i);
    out
}

/// The seed from eight random bytes, read little-endian; any other number of
/// bytes gives `FALLBACK_SEED`.
pub fn seed_from_bytes(bytes: &[u8]) -> (r: u64)
    ensures
        r == seed_of_bytes(bytes@),
{
    if bytes.len() != 8 {
        return FALLBACK_SEED;
    }
    let mut acc: u64 = 0;
    let mut k: usize = 8;
    while k > 0
        invariant
            bytes@.len() == 8,
            k <= 8,
            acc as nat == le_value(bytes@.subrange(k as int, 8)),
            (acc as nat) < pow256((8 - k) as nat),
        decreases k,
    {
        k = k - 1;
        let b: u8 = bytes[k];
        proof {
            let tail = bytes@.subrange(k as int, 8);
            assert(tail.drop_first() =~= bytes@.subrange(k + 1, 8));
            assert(tail[0] == b);
            lemma_pow256_step((7 - k) as nat);
            assert((acc as nat) * 256 + (b as nat) < pow256((8 - k) as nat)) by (nonlinear_arith)
                requires
                    acc as nat + 1 <= pow256((7 - k) as nat),
                    pow256((8 - k) as nat) == 256 * pow256((7 - k) as nat),
                    (b as nat) < 256,
            ;
            lemma_pow256_step(7);
            reveal_with_fuel(pow256, 9);
        }
        acc = acc * 256 + b as u64;
    }
    assert(bytes@.subrange(0, 8) =~= bytes@);
    acc
}

/// `256^e`.
pub open spec fn pow256(e: nat) -> nat
    decreases e,
{
    if e == 0 {
        1
    } else {
        256 * pow256((e - 1) as nat)
    }
}

proof fn lemma_pow256_step(e: nat)
    ensures
        pow256(e + 1) == 256 * pow256(e),
{
}

/// The seed of batch `b` derived from a fixed `seed`.
pub fn batch_seed(seed: u64, b: usize) -> (r: u64)
    requires
        b <= u64::MAX,
    ensures
        r == batch_seed_of(seed, b),
{
    seed ^ (b as u64).wrapping_mul(BATCH_SEED_STRIDE)
}

/// The payloads of `count` requests, by index.
fn build_payloads(count: usize) -> (r: Vec<Vec<u8>>)
    ensures
        r@.len() == count,
        r@.map_values(|v: Vec<u8>| v@) == payloads(count as nat),
{
    let mut expected: Vec<Vec<u8>> = Vec::new();
    let mut i: usize = 0;
    while i < count
        invariant
            i <= count,
            expected@.len() == i,
            forall|j: int| 0 <= j < i ==> (#[trigger] expected@[j])@ == message_of(j as nat),
        decreases count - i,
    {
        let m = batch_message(i);
        expected.push(m);
        i = i + 1;
    }
    assert(expected@.map_values(|v: Vec<u8>| v@) =~= payloads(count as nat));
    expected
}

/// One batch: the payloads by submission index, the order in which replies
/// are awaited, and how many have been checked.
pub struct EchoBatch {
    expected: Vec<Vec<u8>>,
    order: Vec<usize>,
    checked: usize,
}

impl EchoBatch {
    /// Payloads, by submission index.
    pub closed spec fn expected(&self) -> Seq<Seq<u8>> {
        self.expected@.map_values(|v: Vec<u8>| v@)
    }

    /// The order in which replies are awaited.
    pub closed spec fn order(&self) -> Seq<usize> {
        self.order@
    }

    /// How many replies have passed their check.
    pub closed spec fn checked(&self) -> nat {
        self.checked as nat
    }

    /// The order is a permutation of the requests, and no more replies are
    /// checked than there are requests.
    pub open spec fn wf(&self) -> bool {
        &&& is_permutation(self.order(), self.expected().len())
        &&& self.checked() <= self.expected().len()
    }

    #[verifier::type_invariant]
    spec fn inv(&self) -> bool {
        &&& is_permutation(self.order@, self.expected@.len())
        &&& self.checked <= self.expected@.len() <= usize::MAX
    }

    /// A batch of `count` requests whose replies are awaited in the order
    /// that `shuffle_indices(count, seed)` gives.
    pub fn new(count: usize, seed: u64) -> (r: Self)
        ensures
            r.wf(),
            r.expected() == payloads(count as nat),
            r.order() == shuffle_of(count as nat, seed),
            r.checked() == 0,
    {
        let expected = build_payloads(count);
        let order = shuffle_indices(count, seed);
        EchoBatch { expected, order, checked: 0 }
    }

    /// A batch of `count` requests whose replies are awaited in `order`, or
    /// `None` when `order` is not a permutation of `[0, count)`.
    pub fn with_order(count: usize, order: Vec<usize>) -> (r: Option<Self>)
        ensures
            r is Some <==> is_permutation(order@, count as nat),
            r matches Some(b) ==> b.wf() && b.expected() == payloads(count as nat)
                && b.order() == order@ && b.checked() == 0,
    {
        if order.len() != count {
            return None;
        }
        let mut seen: Vec<bool> = Vec::new();
        let mut i: usize = 0;
        while i < count
            invariant
                i <= count,
                seen@.len() == i,
                forall|j: int| 0 <= j < i ==> !(#[trigger] seen@[j]),
            decreases count - i,
        {
            seen.push(false);
            i = i + 1;
        }
        let mut k: usize = 0;
        while k < count
            invariant
                order@.len() == count,
                seen@.len() == count,
                k <= count,
                forall|j: int| 0 <= j < k ==> (#[trigger] order@[j] as nat) < count,
                forall|j: int| 0 <= j < k ==> seen@[#[trigger] order@[j] as int],
                forall|x: int| 0 <= x < count && seen@[x] ==> exists|j: int| 0 <= j < k && order@[j] == x,
                forall|j1: int, j2: int| 0 <= j1 < k && 0 <= j2 < k && j1 != j2 ==> order@[j1] != order@[j2],
            decreases count - k,
        {
            let x: usize = order[k];
            if x >= count || seen[x] {
                proof {
                    if (x as nat) < count {
                        let j = choose|j: int| 0 <= j < k && order@[j] == x;
                        assert(order@[j] == order@[k as int]);
                    }
                }
                return None;
            }
            seen[x] = true;
            k = k + 1;
        }
        let expected = build_payloads(count);
        Some(EchoBatch { expected, order, checked: 0 })
    }

    /// Number of requests in the batch.
    pub fn len(&self) -> (r: usize)
        ensures
            r == self.expected().len(),
    {
        self.expected.len()
    }

    /// The payload of request `i`.
    pub fn payload(&self, i: usize) -> (r: &Vec<u8>)
        requires
            i < self.expected().len(),
        ensures
            r@ == self.expected()[i as int],
    {
        &self.expected[i]
    }

    /// The request whose reply is to be awaited next, if any is left.
    pub fn next_index(&self) -> (r: Option<usize>)
        ensures
            self.wf(),
            self.checked() < self.expected().len() ==> r == Some(self.order()[self.checked() as int]),
            self.checked() == self.expected().len() ==> r is None,
    {
        proof {
            use_type_invariant(self);
        }
        if self.checked < self.order.len() {
            Some(self.order[self.checked])
        } else {
            None
        }
    }

    /// Whether every reply has been checked.
    pub fn is_complete(&self) -> (r: bool)
        ensures
            self.wf(),
            r == (self.checked() == self.expected().len()),
    {
        proof {
            use_type_invariant(self);
        }
        self.checked == self.order.len()
    }

    /// Checks the reply to the request that `next_index` names. A match
    /// moves on to the next request and returns this one's index; a
    /// mismatch names the request and leaves the batch as it was.
    pub fn check_reply(&mut self, reply: &[u8]) -> (r: Result<usize, ReplyMismatch>)
        requires
            old(self).checked() < old(self).expected().len(),
        ensures
            final(self).wf(),
            final(self).expected() == old(self).expected(),
            final(self).order() == old(self).order(),
            ({
                let idx = old(self).order()[old(self).checked() as int];
                let good = reply@ == old(self).expected()[idx as int];
                &&& good ==> r == Ok::<usize, ReplyMismatch>(idx) && final(self).checked() == old(self).checked() + 1
                &&& !good ==> r == Err::<usize, ReplyMismatch>(ReplyMismatch { index: idx })
                    && final(self).checked() == old(self).checked()
            }),
    {
        proof {
            use_type_invariant(&*self);
        }
        let idx: usize = self.order[self.checked];
        if bytes_equal(reply, self.expected[idx].as_slice()) {
            self.checked = self.checked + 1;
            Ok(idx)
        } else {
            Err(ReplyMismatch { index: idx })
        }
    }
}

} // verus!
