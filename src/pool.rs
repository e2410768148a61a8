//! The echo service and the provider that hands out echo handlers from a
//! fixed pool, round-robin.
use vstd::prelude::*;

verus! {

/// Number of handlers a provider is filled with.
pub const POOL_SIZE: usize = 10;

/// A stateless request handler: every reply carries the request's payload
/// unchanged.
pub struct Echoer;

impl Echoer {
    /// Answers a request carrying `msg`.
    pub fn echo(&self, msg: &[u8]) -> (reply: Vec<u8>)
        ensures
            reply@ == msg@,
    {
        let mut reply: Vec<u8> = Vec::new();
        let mut k: usize = 0;
        while k < msg.len()
            invariant
                k <= msg@.len(),
                reply@ == msg@.subrange(0, k as int),
            decreases msg@.len() - k,
        {
            reply.push(msg[k]);
            k = k + 1;
            assert(reply@ =~= msg@.subrange(0, k as int));
        }
        assert(reply@ =~= msg@);
        reply
    }
}

/// The counter after `m` acquisitions, starting from `i`.
pub open spec fn counter_after(i: usize, m: nat) -> usize
    decreases m,
{
    if m == 0 {
        i
    } else {
        vstd::wrapping::usize_specs::wrapping_add(counter_after(i, (m - 1) as nat), 1)
    }
}

/// Hands out handlers from a fixed, non-empty pool in round-robin order.
/// The counter wraps around instead of overflowing.
pub struct EchoerProvider<H> {
    i: usize,
    echoers: Vec<H>,
}

impl<H> EchoerProvider<H> {
    /// The pool is never empty.
    pub open spec fn wf(&self) -> bool {
        self.handlers().len() > 0
    }

    #[verifier::type_invariant]
    spec fn inv(&self) -> bool {
        self.echoers@.len() > 0
    }

    /// How many acquisitions have been made, modulo the counter's range.
    pub closed spec fn counter(&self) -> usize {
        self.i
    }

    /// The handlers, in pool order.
    pub closed spec fn handlers(&self) -> Seq<H> {
        self.echoers@
    }

    /// A provider over `echoers` whose first acquisition takes the first one.
    pub fn new(echoers: Vec<H>) -> (r: Self)
        requires
            echoers@.len() > 0,
        ensures
            r.wf(),
            r.counter() == 0,
            r.handlers() == echoers@,
    {
        EchoerProvider { i: 0, echoers }
    }

    /// Number of handlers in the pool.
    pub fn pool_len(&self) -> (r: usize)
        ensures
            r == self.handlers().len(),
    {
        self.echoers.len()
    }

    /// Acquires a handler: the one at the counter modulo the pool size. The
    /// counter then advances by one, wrapping at the top of its range.
    pub fn echoer(&mut self) -> (r: &H)
        ensures
            old(self).wf(),
            final(self).wf(),
            final(self).handlers() == old(self).handlers(),
            final(self).counter() == counter_after(old(self).counter(), 1),
            *r == old(self).handlers()[old(self).counter() as int % old(self).handlers().len() as int],
    {
        proof {
            use_type_invariant(&*self);
            reveal_with_fuel(counter_after, 2);
        }
        let idx: usize = self.i % self.echoers.len();
        self.i = self.i.wrapping_add(1);
        &self.echoers[idx]
    }
}

proof fn lemma_counter_from_zero(m: nat)
    ensures
        counter_after(0, m) as nat == m % (usize::MAX as nat + 1),
    decreases m,
{
    if m > 0 {
        lemma_counter_from_zero((m - 1) as nat);
        let p = usize::MAX as nat + 1;
        let prev = (m - 1) as nat;
        let x = counter_after(0, prev) as int;
        vstd::arithmetic::div_mod::lemma_add_mod_noop(prev as int, 1, p as int);
        vstd::arithmetic::div_mod::lemma_small_mod(1, p);
        vstd::arithmetic::div_mod::lemma_mod_twice(prev as int, p as int);
        assert((x + 1) % (p as int) == (prev as int + 1) % (p as int));
        assert(x < p);
        assert(counter_after(0, m) == vstd::wrapping::usize_specs::wrapping_add(x as usize, 1));
        if x + 1 == p {
            vstd::arithmetic::div_mod::lemma_mod_self_0(p as int);
            assert(counter_after(0, m) == 0);
        } else {
            vstd::arithmetic::div_mod::lemma_small_mod((x + 1) as nat, p);
            assert(counter_after(0, m) as int == x + 1);
        }
        assert((m as int) % (p as int) == (prev as int + 1) % (p as int));
    } else {
        vstd::arithmetic::div_mod::lemma_small_mod(0, usize::MAX as nat + 1);
    }
}

/// From a fresh provider of `n` handlers, the `m`-th acquisition (counting
/// from zero) takes handler `m mod n` for every `m` the counter can reach
/// without wrapping; past that the counter starts again from zero.
pub proof fn lemma_round_robin(n: nat, m: nat)
    requires
        n > 0,
    ensures
        counter_after(0, m) as nat == m % (usize::MAX as nat + 1),
        m <= usize::MAX ==> counter_after(0, m) as nat % n == m % n,
        counter_after(0, usize::MAX as nat + 1) == 0,
{
    lemma_counter_from_zero(m);
    lemma_counter_from_zero(usize::MAX as nat + 1);
    vstd::arithmetic::div_mod::lemma_mod_self_0(usize::MAX as int + 1);
    if m <= usize::MAX {
        vstd::arithmetic::div_mod::lemma_small_mod(m, usize::MAX as nat + 1);
    }
}

} // verus!
