//! Byte ring between the writer of compressed audio and its consumer.

use vstd::arithmetic::div_mod::{lemma_mod_multiples_vanish, lemma_small_mod, lemma_sub_mod_noop};
use vstd::prelude::*;

use crate::bytes::with_head;

verus! {

/// Capacities that a ring can have: the powers of two that fit its counters, which are the
/// divisors of the number of values that a counter takes.
pub open spec fn ring_capacity(n: int) -> bool {
    0 < n <= u32::MAX && 0x1_0000_0000int % n == 0
}

pub open spec fn smaller(a: int, b: int) -> int {
    if a <= b {
        a
    } else {
        b
    }
}

/// A ring that holds `before` is offered `input`.
pub open spec fn ring_takes(
    capacity: int,
    before: Seq<u8>,
    input: Seq<u8>,
    count: usize,
    after: Seq<u8>,
) -> bool {
    &&& count == smaller(input.len() as int, capacity - before.len())
    &&& after == before + input.take(count as int)
}

/// A ring that holds `before` is asked to fill `output`.
pub open spec fn ring_gives(
    before: Seq<u8>,
    output: Seq<u8>,
    count: usize,
    after: Seq<u8>,
    output_after: Seq<u8>,
) -> bool {
    &&& count == smaller(output.len() as int, before.len() as int)
    &&& after == before.skip(count as int)
    &&& output_after == with_head(output, before.take(count as int))
}

/// First-in-first-out buffer of at most `N` bytes. `head` counts the bytes that were written and
/// `tail` those that were read, both modulo 2^32.
pub struct InputRing<const N: usize> {
    bytes: [u8; N],
    head: u32,
    tail: u32,
}

proof fn lemma_same_slot(a: int, b: int, n: int)
    requires
        ring_capacity(n),
        a % 0x1_0000_0000 == b % 0x1_0000_0000,
    ensures
        a % n == b % n,
{
    let wraps = 0x1_0000_0000int;
    let turns = wraps / n;
    let k = a / wraps - b / wraps;
    assert(n * turns == wraps) by (nonlinear_arith)
        requires
            turns == wraps / n,
            wraps % n == 0,
            n > 0,
    ;
    assert(a == b + wraps * k);
    assert(wraps * k == n * (turns * k)) by (nonlinear_arith)
        requires
            n * turns == wraps,
    ;
    lemma_mod_multiples_vanish(turns * k, b, n);
}

proof fn lemma_other_slot(a: int, b: int, n: int)
    requires
        n > 0,
        a < b < a + n,
    ensures
        a % n != b % n,
{
    lemma_sub_mod_noop(b, a, n);
    lemma_small_mod((b - a) as nat, n as nat);
    if a % n == b % n {
        lemma_small_mod(0, n as nat);
    }
}

impl<const N: usize> View for InputRing<N> {
    type V = Seq<u8>;

    closed spec fn view(&self) -> Seq<u8> {
        Seq::new(self.pending(), |i: int| self.slot(i))
    }
}

impl<const N: usize> InputRing<N> {
    /// The byte `i` places behind the oldest one.
    spec fn slot(&self, i: int) -> u8 {
        self.bytes@[(self.tail + i) % (N as int)]
    }

    spec fn pending(&self) -> nat {
        ((self.head - self.tail) % 0x1_0000_0000) as nat
    }

    pub closed spec fn wf(&self) -> bool {
        ring_capacity(N as int) && self.pending() <= N
    }

    /// What `wf` promises to the outside.
    pub proof fn lemma_capacity(&self)
        requires
            self.wf(),
        ensures
            ring_capacity(N as int),
            self@.len() <= N,
    {
    }

    pub fn new() -> (ring: Self)
        requires
            ring_capacity(N as int),
        ensures
            ring.wf(),
            ring@ == Seq::<u8>::empty(),
    {
        Self::default()
    }

    pub fn used(&self) -> (count: usize)
        requires
            self.wf(),
        ensures
            count == self@.len(),
            count <= N,
    {
        self.head.wrapping_sub(self.tail) as usize
    }

    pub fn free(&self) -> (count: usize)
        requires
            self.wf(),
        ensures
            count == N - self@.len(),
    {
        N - self.used()
    }

    /// Appends as much of `input` as there is room for.
    pub fn write(&mut self, input: &[u8]) -> (count: usize)
        requires
            old(self).wf(),
        ensures
            final(self).wf(),
            ring_takes(N as int, old(self)@, input@, count, final(self)@),
    {
        let used = self.used();
        let free = N - used;
        let count = if input.len() < free {
            input.len()
        } else {
            free
        };
        let ghost before = self@;
        let head = self.head;
        let mut offset: usize = 0;
        while offset < count
            invariant
                ring_capacity(N as int),
                used + count <= N,
                count <= input@.len(),
                offset <= count,
                before.len() == used,
                head == self.head,
                self.pending() == used,
                forall|i: int|
                    0 <= i < used + offset ==> #[trigger] self.slot(i) == (before + input@.take(
                        offset as int,
                    ))[i],
            decreases count - offset,
        {
            let index = head.wrapping_add(offset as u32) as usize % N;
            let ghost place = self.tail + used + offset;
            let ghost previous = *self;
            proof {
                lemma_same_slot(head + offset, place, N as int);
                lemma_same_slot(
                    head.wrapping_add(offset as u32) as int,
                    head + offset,
                    N as int,
                );
            }
            self.bytes[index] = input[offset];
            proof {
                assert forall|i: int| 0 <= i < used + offset + 1 implies #[trigger] self.slot(
                    i,
                ) == (before + input@.take(offset + 1))[i] by {
                    if i < used + offset {
                        lemma_other_slot(self.tail + i, place, N as int);
                        assert(previous.slot(i) == (before + input@.take(offset as int))[i]);
                    }
                }
            }
            offset += 1;
        }
        let ghost filled = *self;
        self.head = head.wrapping_add(count as u32);
        assert(forall|i: int| #[trigger] self.slot(i) == filled.slot(i));
        assert(self.pending() == used + count);
        assert(self@ =~= before + input@.take(count as int));
        count
    }

    /// Takes the oldest bytes, as many as there are and as `output` holds.
    pub fn read(&mut self, output: &mut [u8]) -> (count: usize)
        requires
            old(self).wf(),
        ensures
            final(self).wf(),
            ring_gives(old(self)@, old(output)@, count, final(self)@, final(output)@),
    {
        let used = self.used();
        let count = if output.len() < used {
            output.len()
        } else {
            used
        };
        let ghost before = self@;
        let ghost output_before = output@;
        let tail = self.tail;
        let mut offset: usize = 0;
        while offset < count
            invariant
                ring_capacity(N as int),
                count <= used <= N,
                count <= output_before.len(),
                offset <= count,
                before == self@,
                before.len() == used,
                tail == self.tail,
                self.pending() == used,
                output@ == with_head(output_before, before.take(offset as int)),
            decreases count - offset,
        {
            let index = tail.wrapping_add(offset as u32) as usize % N;
            proof {
                lemma_same_slot(
                    tail.wrapping_add(offset as u32) as int,
                    tail + offset,
                    N as int,
                );
            }
            output[offset] = self.bytes[index];
            offset += 1;
            assert(output@ =~= with_head(output_before, before.take(offset as int)));
        }
        self.tail = tail.wrapping_add(count as u32);
        proof {
            assert forall|i: int| 0 <= i < used - count implies #[trigger] self.slot(i) == before[count
                + i] by {
                lemma_same_slot(self.tail + i, tail + count + i, N as int);
            }
            assert(self@ =~= before.skip(count as int));
        }
        count
    }

    /// Discards all bytes that were written.
    pub fn reset(&mut self)
        requires
            old(self).wf(),
        ensures
            final(self).wf(),
            final(self)@ == Seq::<u8>::empty(),
    {
        self.tail = self.head;
        assert(self@ =~= Seq::<u8>::empty());
    }
}

impl<const N: usize> Default for InputRing<N> {
    fn default() -> (ring: Self)
        ensures
            ring_capacity(N as int) ==> ring.wf(),
            ring@ == Seq::<u8>::empty(),
    {
        let ring = InputRing { bytes: [0; N], head: 0, tail: 0 };
        assert(ring@ =~= Seq::<u8>::empty());
        ring
    }
}

/// What happens to a ring.
pub enum RingStep {
    /// Bytes are offered.
    Write(Seq<u8>),
    /// Room for so many bytes is offered.
    Read(nat),
}

/// All bytes that a ring took in and gave out, and those that it holds.
pub struct RingHistory {
    pub accepted: Seq<u8>,
    pub delivered: Seq<u8>,
    pub queued: Seq<u8>,
}

/// A ring of the given capacity after the steps, each of which does what `InputRing::write` or
/// `InputRing::read` does.
pub open spec fn ring_history(capacity: nat, steps: Seq<RingStep>) -> RingHistory
    decreases steps.len(),
{
    if steps.len() == 0 {
        RingHistory { accepted: Seq::empty(), delivered: Seq::empty(), queued: Seq::empty() }
    } else {
        let before = ring_history(capacity, steps.drop_last());
        match steps.last() {
            RingStep::Write(input) => {
                let count = smaller(input.len() as int, capacity - before.queued.len());
                RingHistory {
                    accepted: before.accepted + input.take(count),
                    queued: before.queued + input.take(count),
                    ..before
                }
            },
            RingStep::Read(room) => {
                let count = smaller(room as int, before.queued.len() as int);
                RingHistory {
                    delivered: before.delivered + before.queued.take(count),
                    queued: before.queued.skip(count),
                    ..before
                }
            },
        }
    }
}

/// First in, first out, whatever the order of writes and reads: what was given out, followed by
/// what is held, is what was taken in. Nothing is lost, repeated or moved, and the ring never
/// holds more than its capacity.
pub proof fn law_first_in_first_out(capacity: nat, steps: Seq<RingStep>)
    ensures
        ({
            let history = ring_history(capacity, steps);
            &&& history.accepted == history.delivered + history.queued
            &&& history.queued.len() <= capacity
        }),
    decreases steps.len(),
{
    let history = ring_history(capacity, steps);
    if steps.len() > 0 {
        law_first_in_first_out(capacity, steps.drop_last());
    }
    assert(history.accepted =~= history.delivered + history.queued);
}

/// Each step of a history is one write or one read of a ring.
pub proof fn law_histories_are_writes_and_reads(capacity: nat, steps: Seq<RingStep>)
    requires
        steps.len() > 0,
    ensures
        ({
            let before = ring_history(capacity, steps.drop_last());
            let after = ring_history(capacity, steps);
            match steps.last() {
                RingStep::Write(input) => {
                    let count = after.queued.len() - before.queued.len();
                    &&& 0 <= count <= input.len()
                    &&& count < input.len() ==> after.queued.len() == capacity
                    &&& after.queued == before.queued + input.take(count)
                    &&& after.accepted == before.accepted + input.take(count)
                    &&& after.delivered == before.delivered
                },
                RingStep::Read(room) => {
                    let count = after.delivered.len() - before.delivered.len();
                    &&& 0 <= count <= room
                    &&& count < room ==> after.queued.len() == 0
                    &&& before.queued == after.delivered.skip(before.delivered.len() as int)
                        + after.queued
                    &&& after.delivered.take(before.delivered.len() as int) == before.delivered
                    &&& after.accepted == before.accepted
                },
            }
        }),
{
    let before = ring_history(capacity, steps.drop_last());
    let after = ring_history(capacity, steps);
    law_first_in_first_out(capacity, steps.drop_last());
    if let RingStep::Read(room) = steps.last() {
        let count = smaller(room as int, before.queued.len() as int);
        assert(after.delivered.skip(before.delivered.len() as int) =~= before.queued.take(count));
        assert(before.queued =~= before.queued.take(count) + before.queued.skip(count));
    }
}

/// A ring takes as much as it has room for, behind what it holds.
pub proof fn law_a_ring_takes_what_fits(
    capacity: int,
    before: Seq<u8>,
    input: Seq<u8>,
    count: usize,
    after: Seq<u8>,
)
    requires
        ring_takes(capacity, before, input, count, after),
        before.len() <= capacity,
    ensures
        count <= input.len(),
        before.len() + count <= capacity,
        count == input.len() || before.len() + count == capacity,
        after.len() == before.len() + count,
        forall|i: int| 0 <= i < before.len() ==> #[trigger] after[i] == before[i],
        forall|i: int| 0 <= i < count ==> after[before.len() + i] == #[trigger] input[i],
{
}

/// A ring gives the oldest bytes in their order, as many as it holds and as are asked for, and holds
/// the others still.
pub proof fn law_a_ring_gives_the_oldest(
    before: Seq<u8>,
    output: Seq<u8>,
    count: usize,
    after: Seq<u8>,
    output_after: Seq<u8>,
)
    requires
        ring_gives(before, output, count, after, output_after),
    ensures
        count <= output.len() && count <= before.len(),
        count == output.len() || count == before.len(),
        output_after.len() == output.len(),
        forall|i: int| 0 <= i < count ==> #[trigger] output_after[i] == before[i],
        forall|i: int| count <= i < output.len() ==> #[trigger] output_after[i] == output[i],
        after.len() == before.len() - count,
        forall|i: int| 0 <= i < after.len() ==> #[trigger] after[i] == before[count + i],
{
}

/// A ring has a capacity that halves down to one: a power of two, below 2^32.
pub proof fn law_ring_capacities(n: int)
    ensures
        ring_capacity(1),
        0 < n < 0x8000_0000 && ring_capacity(n) ==> ring_capacity(2 * n),
        n > 1 && ring_capacity(n) ==> n % 2 == 0 && ring_capacity(n / 2),
        !ring_capacity(0),
        n > u32::MAX ==> !ring_capacity(n),
{
    if 0 < n < 0x8000_0000 && ring_capacity(n) {
        lemma_capacity_doubles(n);
    }
    if n > 1 && ring_capacity(n) {
        lemma_capacity_halves(n);
    }
}

/// A number below 2^31 that divides 2^32 divides it an even number of times.
proof fn lemma_capacity_doubles(n: int)
    requires
        0 < n < 0x8000_0000,
        ring_capacity(n),
    ensures
        ring_capacity(2 * n),
    decreases n,
{
    let wraps = 0x1_0000_0000int;
    let turns = wraps / n;
    assert(n * turns == wraps && turns > 2) by (nonlinear_arith)
        requires
            turns == wraps / n,
            wraps % n == 0,
            0 < n < 0x8000_0000,
            wraps == 0x1_0000_0000,
    ;
    lemma_divisor_is_even(turns, n, 32);
    let half = turns / 2;
    assert(wraps == (2 * n) * half) by (nonlinear_arith)
        requires
            n * turns == wraps,
            turns == 2 * half,
    ;
    lemma_mod_multiples_vanish(half, 0, 2 * n);
    lemma_small_mod(0, (2 * n) as nat);
}

proof fn lemma_capacity_halves(n: int)
    requires
        n > 1,
        ring_capacity(n),
    ensures
        n % 2 == 0,
        ring_capacity(n / 2),
{
    let wraps = 0x1_0000_0000int;
    let turns = wraps / n;
    assert(n * turns == wraps) by (nonlinear_arith)
        requires
            turns == wraps / n,
            wraps % n == 0,
            n > 0,
    ;
    assert(turns * n == n * turns) by (nonlinear_arith);
    lemma_divisor_is_even(n, turns, 32);
    let half = n / 2;
    assert(wraps == half * (2 * turns)) by (nonlinear_arith)
        requires
            n * turns == wraps,
            n == 2 * half,
    ;
    lemma_mod_multiples_vanish(2 * turns, 0, half);
    lemma_small_mod(0, half as nat);
}

spec fn power_of_two(exponent: nat) -> int
    decreases exponent,
{
    if exponent == 0 {
        1
    } else {
        2 * power_of_two((exponent - 1) as nat)
    }
}

/// A divisor of a power of two is one or even.
proof fn lemma_divisor_is_even(a: int, b: int, exponent: nat)
    requires
        a > 1,
        a * b == power_of_two(exponent) || (exponent == 32 && a * b == 0x1_0000_0000),
    ensures
        a % 2 == 0,
    decreases exponent,
{
    reveal_with_fuel(power_of_two, 33);
    let rest = if exponent == 0 {
        0
    } else {
        power_of_two((exponent - 1) as nat)
    };
    if a % 2 == 1 {
        if exponent == 0 {
            assert(false) by (nonlinear_arith)
                requires
                    a > 1,
                    a * b == 1,
            ;
        } else {
            let k = a / 2;
            if b % 2 == 1 {
                let j = b / 2;
                assert((2 * k + 1) * (2 * j + 1) == 2 * (2 * (k * j) + k + j) + 1)
                    by (nonlinear_arith);
            }
            let c = b / 2;
            assert(a * (2 * c) == 2 * (a * c)) by (nonlinear_arith);
            lemma_divisor_is_even(a, c, (exponent - 1) as nat);
        }
    }
}

} // verus!
