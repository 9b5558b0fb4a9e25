use vstd::prelude::*;
use vstd::arithmetic::power2::{pow2, lemma_pow2_unfold, lemma_pow2_strictly_increases, lemma2_to64};
use vstd::bits::{low_bits_mask, lemma_usize_low_bits_mask_is_mod};
use vstd::arithmetic::div_mod::lemma_small_mod;

verus! {

/// One decoded MIDI event as it travels to the audio thread.
#[derive(Debug, Clone, Copy, PartialEq, Eq)]
pub struct MIDIEventCmd {
    pub event_type: u32,
    pub pitch: u32,
    pub velocity: u32,
    pub timestamp_samples: u32,
}

/// `n` is 2^k for some k that fits the bit width of `usize`.
pub open spec fn is_power_of_two(n: int) -> bool {
    exists|k: nat| k < usize::BITS && pow2(k) == n
}

/// `x` reduced once by `cap`: the slot index that `x` denotes on a ring of
/// `cap` slots, for `0 <= x < 2 * cap`.
pub open spec fn wrap(x: int, cap: int) -> int {
    if x >= cap {
        x - cap
    } else {
        x
    }
}

/// Number of occupied slots between a consumer index `tail` and a producer
/// index `head` on a ring of `cap` slots.
pub open spec fn ring_distance(head: int, tail: int, cap: int) -> int {
    if head >= tail {
        head - tail
    } else {
        head + cap - tail
    }
}

/// Law: the occupied slots between `tail` and `head` on a ring of `cap`
/// slots are `head - tail` taken modulo `cap`.
pub proof fn law_ring_distance_is_modular(head: int, tail: int, cap: int)
    requires
        0 <= head < cap,
        0 <= tail < cap,
    ensures
        ring_distance(head, tail, cap) == (head - tail + cap) % cap,
        0 <= ring_distance(head, tail, cap) < cap,
{
    if head >= tail {
        vstd::arithmetic::div_mod::lemma_fundamental_div_mod_converse(
            head - tail + cap,
            cap,
            1,
            head - tail,
        );
    } else {
        vstd::arithmetic::div_mod::lemma_fundamental_div_mod_converse(
            head - tail + cap,
            cap,
            0,
            head - tail + cap,
        );
    }
}

proof fn lemma_pow2_half_bound(k: nat)
    requires
        k < usize::BITS,
    ensures
        2 * pow2(k) <= usize::MAX + 1,
{
    lemma_pow2_unfold(k + 1);
    lemma2_to64();
    if k + 1 < usize::BITS {
        lemma_pow2_strictly_increases(k + 1, usize::BITS as nat);
    }
}

/// For a power-of-two capacity, masking with `capacity - 1` reduces any
/// index below twice the capacity back onto the ring.
pub proof fn lemma_mask_wraps(x: usize, mask: usize)
    requires
        is_power_of_two(mask + 1),
        x < 2 * (mask + 1),
    ensures
        x & mask == wrap(x as int, mask + 1),
        2 * (mask + 1) <= usize::MAX + 1,
{
    let k = choose|k: nat| k < usize::BITS && pow2(k) == mask + 1;
    lemma_pow2_half_bound(k);
    lemma_usize_low_bits_mask_is_mod(x, k);
    assert(low_bits_mask(k) == mask);
    let cap = (mask + 1) as int;
    if x < cap {
        lemma_small_mod(x as nat, cap as nat);
    } else {
        lemma_small_mod((x - cap) as nat, cap as nat);
        assert((x as int) % cap == (x - cap) as int % cap) by (nonlinear_arith)
            requires
                cap > 0,
                x >= cap,
        {
            vstd::arithmetic::div_mod::lemma_mod_sub_multiples_vanish(x as int, cap);
        }
    }
}

/// Index `n` slots past `index` on a ring whose capacity is `mask + 1` (a
/// power of two).
pub fn ring_advance(index: usize, n: usize, mask: usize) -> (r: usize)
    requires
        is_power_of_two(mask + 1),
        index <= mask,
        n <= mask + 1,
    ensures
        r == wrap(index + n, mask + 1),
        r <= mask,
{
    proof {
        let k = choose|k: nat| k < usize::BITS && pow2(k) == mask + 1;
        lemma_pow2_half_bound(k);
        lemma_mask_wraps((index + n) as usize, mask);
    }
    (index + n) & mask
}

/// Occupied slots of a ring whose capacity is `mask + 1` (a power of two),
/// given the producer index `head` and the consumer index `tail`.
pub fn ring_len(head: usize, tail: usize, mask: usize) -> (n: usize)
    requires
        is_power_of_two(mask + 1),
        head <= mask,
        tail <= mask,
    ensures
        n == ring_distance(head as int, tail as int, mask + 1),
{
    if head >= tail {
        head - tail
    } else {
        head + (mask - tail) + 1
    }
}

/// Whether a ring of `mask + 1` slots (a power of two) with these indices
/// can take one more item. One slot always stays free, so the ring is full
/// when the slot after `head` is `tail`.
pub fn ring_has_room(head: usize, tail: usize, mask: usize) -> (b: bool)
    requires
        is_power_of_two(mask + 1),
        head <= mask,
        tail <= mask,
    ensures
        b == (ring_distance(head as int, tail as int, mask + 1) + 1 < mask + 1),
{
    let next = ring_advance(head, 1, mask);
    next != tail
}

/// How many items a read into room for `want` items takes: every queued
/// item, but no more than `want`.
pub fn ring_take_count(head: usize, tail: usize, mask: usize, want: usize) -> (n: usize)
    requires
        is_power_of_two(mask + 1),
        head <= mask,
        tail <= mask,
    ensures
        n == if ring_distance(head as int, tail as int, mask + 1) < want {
            ring_distance(head as int, tail as int, mask + 1)
        } else {
            want as int
        },
{
    let avail = ring_len(head, tail, mask);
    if avail < want {
        avail
    } else {
        want
    }
}

/// Bounded single-producer / single-consumer FIFO ring.
///
/// One slot is always left free so that a full ring and an empty ring are
/// told apart by the indices alone: a ring of `capacity` slots holds at most
/// `capacity - 1` items. The capacity is a power of two so that index
/// arithmetic reduces to masking.
pub struct LockFreeRingBuffer<T: Clone + Copy> {
    buffer: Vec<Option<T>>,
    head: usize,
    tail: usize,
    mask: usize,
}

impl<T: Clone + Copy> LockFreeRingBuffer<T> {
    /// Well-formedness: what every constructed ring satisfies and every
    /// operation preserves.
    pub closed spec fn wf(self) -> bool {
        &&& self.buffer.len() == self.mask + 1
        &&& is_power_of_two(self.mask + 1)
        &&& self.mask >= 1
        &&& self.head <= self.mask
        &&& self.tail <= self.mask
        &&& forall|i: int|
            0 <= i < self.occupied() ==> (#[trigger] self.buffer@[self.slot(i)]) is Some
    }

    /// Number of slots of the ring.
    pub closed spec fn slots(self) -> nat {
        (self.mask + 1) as nat
    }

    closed spec fn occupied(self) -> int {
        ring_distance(self.head as int, self.tail as int, self.mask + 1)
    }

    closed spec fn slot(self, i: int) -> int {
        wrap(self.tail + i, self.mask + 1)
    }

    /// The items of the ring, oldest first.
    pub closed spec fn items(self) -> Seq<T> {
        Seq::new(
            self.occupied() as nat,
            |i: int|
                match self.buffer@[self.slot(i)] {
                    Some(x) => x,
                    None => arbitrary(),
                },
        )
    }

    /// What `enqueue(item)` does, with `before` and `after` the ring and
    /// `r` the result: the ring stays well formed with its slot count;
    /// `item` is appended when fewer than `slots - 1` items are queued, and
    /// otherwise the ring is left as it was and `item` is handed back.
    pub open spec fn enqueue_outcome(before: Self, after: Self, item: T, r: Result<(), T>) -> bool {
        &&& after.wf()
        &&& after.slots() == before.slots()
        &&& match r {
            Ok(()) => before@.len() + 1 < before.slots() && after@ == before@.push(item),
            Err(x) => x == item && before@.len() + 1 == before.slots() && after@ == before@,
        }
    }

    /// What `dequeue(out)` does, with `before` and `after` the ring, `out0`
    /// and `out1` the buffer's contents and `n` the result: the `n` oldest
    /// items, as many as are queued but no more than fit, move in order to
    /// the front of the buffer, whose other entries stay as they were.
    pub open spec fn dequeue_outcome(
        before: Self,
        after: Self,
        out0: Seq<T>,
        out1: Seq<T>,
        n: usize,
    ) -> bool {
        &&& after.wf()
        &&& after.slots() == before.slots()
        &&& n == if before@.len() < out0.len() {
            before@.len()
        } else {
            out0.len() as nat
        }
        &&& out1 == before@.take(n as int) + out0.skip(n as int)
        &&& after@ == before@.skip(n as int)
    }

    /// Create an empty ring with `capacity` slots.
    pub fn new(capacity: usize) -> (r: Self)
        requires
            is_power_of_two(capacity as int),
            capacity >= 2,
        ensures
            r.wf(),
            r@ == Seq::<T>::empty(),
            r.slots() == capacity,
    {
        let mut buffer: Vec<Option<T>> = Vec::new();
        let mut i: usize = 0;
        while i < capacity
            invariant
                i <= capacity,
                buffer.len() == i,
            decreases capacity - i,
        {
            buffer.push(None);
            i = i + 1;
        }
        let r = LockFreeRingBuffer { buffer, head: 0, tail: 0, mask: capacity - 1 };
        assert(r@ =~= Seq::<T>::empty());
        r
    }

    /// Number of slots (one more than the most items the ring can hold).
    pub fn capacity(&self) -> (c: usize)
        requires
            self.wf(),
        ensures
            c == self.slots(),
            c >= 2,
            is_power_of_two(c as int),
    {
        self.buffer.len()
    }

    /// Number of items currently queued.
    pub fn len(&self) -> (n: usize)
        requires
            self.wf(),
        ensures
            n == self@.len(),
            n < self.slots(),
    {
        ring_len(self.head, self.tail, self.mask)
    }

    /// Whether no item is queued.
    pub fn is_empty(&self) -> (b: bool)
        requires
            self.wf(),
        ensures
            b == (self@.len() == 0),
    {
        self.head == self.tail
    }

    /// Append `item`; when the ring already holds `slots - 1` items it is
    /// left unchanged and `item` is handed back in `Err`.
    pub fn enqueue(&mut self, item: T) -> (r: Result<(), T>)
        requires
            old(self).wf(),
        ensures
            Self::enqueue_outcome(*old(self), *final(self), item, r),
    {
        let head = self.head;
        if !ring_has_room(head, self.tail, self.mask) {
            return Err(item);
        }
        let next = ring_advance(head, 1, self.mask);
        let ghost old_items = self@;
        let ghost pre = *self;
        self.buffer.set(head, Some(item));
        let ghost mid = *self;
        self.head = next;
        assert(next == wrap(head + 1, self.mask + 1));
        assert(self.occupied() == mid.occupied() + 1);
        assert forall|i: int| 0 <= i < self.occupied() implies (#[trigger] self.buffer@[self.slot(
            i,
        )]) is Some by {
            if i < mid.occupied() {
                assert(self.slot(i) == mid.slot(i));
                assert(mid.slot(i) != head);
                assert(pre.buffer@[pre.slot(i)] is Some);
            } else {
                assert(self.slot(i) == head as int);
                assert(self.buffer@[head as int] == Some(item));
            }
        }
        assert(self@ =~= old_items.push(item));
        Ok(())
    }

    /// Move up to `out.len()` items, oldest first, into the front of `out`;
    /// returns how many were moved. The rest of `out` is left as it was.
    pub fn dequeue(&mut self, out: &mut [T]) -> (n: usize)
        requires
            old(self).wf(),
        ensures
            Self::dequeue_outcome(*old(self), *final(self), old(out)@, final(out)@, n),
    {
        let tail = self.tail;
        let n = ring_take_count(self.head, tail, self.mask, out.len());
        let ghost items = self@;
        let ghost out0 = out@;
        let mut i: usize = 0;
        while i < n
            invariant
                i <= n,
                n <= items.len(),
                n <= out0.len(),
                out@.len() == out0.len(),
                self@ == items,
                self.wf(),
                self.tail == tail,
                forall|j: int| 0 <= j < i ==> out@[j] == items[j],
                forall|j: int| i <= j < out0.len() ==> out@[j] == out0[j],
            decreases n - i,
        {
            let idx = ring_advance(tail, i, self.mask);
            proof {
                assert(self.buffer@[self.slot(i as int)] is Some);
            }
            match self.buffer[idx] {
                Some(x) => {
                    out[i] = x;
                },
                None => {},
            }
            i = i + 1;
        }
        assert(out@ =~= items.take(n as int) + out0.skip(n as int));
        if n > 0 {
            let ghost before = *self;
            self.tail = ring_advance(tail, n, self.mask);
            assert(self.occupied() == before.occupied() - n);
            assert forall|j: int| 0 <= j < self.occupied() implies self.slot(j) == before.slot(
                j + n,
            ) by {}
            assert forall|j: int| 0 <= j < self.occupied() implies (#[trigger] self.buffer@[self.slot(
                j,
            )]) is Some by {
                assert(self.slot(j) == before.slot(j + n));
            }
            assert(self@ =~= items.skip(n as int));
        } else {
            assert(self@ =~= items.skip(n as int));
        }
        n
    }
}

impl<T: Clone + Copy> View for LockFreeRingBuffer<T> {
    type V = Seq<T>;

    closed spec fn view(&self) -> Seq<T> {
        self.items()
    }
}

/// Law: first in, first out. After `enqueue(x)` succeeds, a `dequeue`
/// hands out the items queued before `x` ahead of it, and `x` itself only
/// once all of them are out: what comes out, followed by what stays, is the
/// old contents with `x` behind them.
pub proof fn law_first_in_first_out<T: Clone + Copy>(
    q0: LockFreeRingBuffer<T>,
    q1: LockFreeRingBuffer<T>,
    q2: LockFreeRingBuffer<T>,
    x: T,
    out0: Seq<T>,
    out1: Seq<T>,
    n: usize,
)
    requires
        LockFreeRingBuffer::enqueue_outcome(q0, q1, x, Ok(())),
        LockFreeRingBuffer::dequeue_outcome(q1, q2, out0, out1, n),
    ensures
        out1.take(n as int) + q2@ == q0@.push(x),
        n <= q0@.len() ==> out1.take(n as int) == q0@.take(n as int),
        n == q0@.len() + 1 ==> out1[q0@.len() as int] == x && q2@.len() == 0,
{
    assert(out1.take(n as int) =~= q1@.take(n as int));
    assert(q1@.take(n as int) + q1@.skip(n as int) =~= q1@);
    if n <= q0@.len() {
        assert(q0@.push(x).take(n as int) =~= q0@.take(n as int));
    }
}

/// Law: a dequeue loses and duplicates nothing. The items it hands out,
/// followed by those left queued, are the items queued before; the rest of
/// the buffer is untouched.
pub proof fn law_dequeue_conserves<T: Clone + Copy>(
    q1: LockFreeRingBuffer<T>,
    q2: LockFreeRingBuffer<T>,
    out0: Seq<T>,
    out1: Seq<T>,
    n: usize,
)
    requires
        LockFreeRingBuffer::dequeue_outcome(q1, q2, out0, out1, n),
    ensures
        out1.take(n as int) + q2@ == q1@,
        out1.skip(n as int) == out0.skip(n as int),
        out1.len() == out0.len(),
{
    assert(out1.take(n as int) =~= q1@.take(n as int));
    assert(q1@.take(n as int) + q1@.skip(n as int) =~= q1@);
    assert(out1.skip(n as int) =~= out0.skip(n as int));
}

} // verus!
