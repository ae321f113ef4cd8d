//! A bounded first-in, first-out queue over a power-of-two number of slots.

use vstd::prelude::*;

verus! {

/// `n` is a power of two: one of the 64 values 1, 2, 4, ... up to 2^63.
pub open spec fn is_pow2(n: u64) -> bool {
    n == 0x1
        || n == 0x2
        || n == 0x4
        || n == 0x8
        || n == 0x10
        || n == 0x20
        || n == 0x40
        || n == 0x80
        || n == 0x100
        || n == 0x200
        || n == 0x400
        || n == 0x800
        || n == 0x1000
        || n == 0x2000
        || n == 0x4000
        || n == 0x8000
        || n == 0x1_0000
        || n == 0x2_0000
        || n == 0x4_0000
        || n == 0x8_0000
        || n == 0x10_0000
        || n == 0x20_0000
        || n == 0x40_0000
        || n == 0x80_0000
        || n == 0x100_0000
        || n == 0x200_0000
        || n == 0x400_0000
        || n == 0x800_0000
        || n == 0x1000_0000
        || n == 0x2000_0000
        || n == 0x4000_0000
        || n == 0x8000_0000
        || n == 0x1_0000_0000
        || n == 0x2_0000_0000
        || n == 0x4_0000_0000
        || n == 0x8_0000_0000
        || n == 0x10_0000_0000
        || n == 0x20_0000_0000
        || n == 0x40_0000_0000
        || n == 0x80_0000_0000
        || n == 0x100_0000_0000
        || n == 0x200_0000_0000
        || n == 0x400_0000_0000
        || n == 0x800_0000_0000
        || n == 0x1000_0000_0000
        || n == 0x2000_0000_0000
        || n == 0x4000_0000_0000
        || n == 0x8000_0000_0000
        || n == 0x1_0000_0000_0000
        || n == 0x2_0000_0000_0000
        || n == 0x4_0000_0000_0000
        || n == 0x8_0000_0000_0000
        || n == 0x10_0000_0000_0000
        || n == 0x20_0000_0000_0000
        || n == 0x40_0000_0000_0000
        || n == 0x80_0000_0000_0000
        || n == 0x100_0000_0000_0000
        || n == 0x200_0000_0000_0000
        || n == 0x400_0000_0000_0000
        || n == 0x800_0000_0000_0000
        || n == 0x1000_0000_0000_0000
        || n == 0x2000_0000_0000_0000
        || n == 0x4000_0000_0000_0000
        || n == 0x8000_0000_0000_0000
}

/// `n - 1` on 64 bits.
pub open spec fn sub_one(n: u64) -> u64 {
    (n - 1) as u64
}

/// The slot that position `pos` falls on in a ring of `n` slots.
pub open spec fn slot_of(pos: u64, n: u64) -> int {
    (pos & sub_one(n)) as int
}

/// The position `k` steps after `pos`, wrapping at 2^64.
pub open spec fn advance(pos: u64, k: u64) -> u64 {
    if pos + k > u64::MAX {
        (pos + k - 0x1_0000_0000_0000_0000) as u64
    } else {
        (pos + k) as u64
    }
}

/// A power of two shares no bit with its predecessor.
proof fn lemma_pow2_mask(n: u64)
    requires
        is_pow2(n),
    ensures
        n > 0,
        n & sub_one(n) == 0,
{
    assert((n == 0x1u64
        || n == 0x2u64
        || n == 0x4u64
        || n == 0x8u64
        || n == 0x10u64
        || n == 0x20u64
        || n == 0x40u64
        || n == 0x80u64
        || n == 0x100u64
        || n == 0x200u64
        || n == 0x400u64
        || n == 0x800u64
        || n == 0x1000u64
        || n == 0x2000u64
        || n == 0x4000u64
        || n == 0x8000u64
        || n == 0x1_0000u64
        || n == 0x2_0000u64
        || n == 0x4_0000u64
        || n == 0x8_0000u64
        || n == 0x10_0000u64
        || n == 0x20_0000u64
        || n == 0x40_0000u64
        || n == 0x80_0000u64
        || n == 0x100_0000u64
        || n == 0x200_0000u64
        || n == 0x400_0000u64
        || n == 0x800_0000u64
        || n == 0x1000_0000u64
        || n == 0x2000_0000u64
        || n == 0x4000_0000u64
        || n == 0x8000_0000u64
        || n == 0x1_0000_0000u64
        || n == 0x2_0000_0000u64
        || n == 0x4_0000_0000u64
        || n == 0x8_0000_0000u64
        || n == 0x10_0000_0000u64
        || n == 0x20_0000_0000u64
        || n == 0x40_0000_0000u64
        || n == 0x80_0000_0000u64
        || n == 0x100_0000_0000u64
        || n == 0x200_0000_0000u64
        || n == 0x400_0000_0000u64
        || n == 0x800_0000_0000u64
        || n == 0x1000_0000_0000u64
        || n == 0x2000_0000_0000u64
        || n == 0x4000_0000_0000u64
        || n == 0x8000_0000_0000u64
        || n == 0x1_0000_0000_0000u64
        || n == 0x2_0000_0000_0000u64
        || n == 0x4_0000_0000_0000u64
        || n == 0x8_0000_0000_0000u64
        || n == 0x10_0000_0000_0000u64
        || n == 0x20_0000_0000_0000u64
        || n == 0x40_0000_0000_0000u64
        || n == 0x80_0000_0000_0000u64
        || n == 0x100_0000_0000_0000u64
        || n == 0x200_0000_0000_0000u64
        || n == 0x400_0000_0000_0000u64
        || n == 0x800_0000_0000_0000u64
        || n == 0x1000_0000_0000_0000u64
        || n == 0x2000_0000_0000_0000u64
        || n == 0x4000_0000_0000_0000u64
        || n == 0x8000_0000_0000_0000u64) ==> n > 0 && n & ((n - 1) as u64) == 0) by (bit_vector);
}

proof fn lemma_slot_in_range(pos: u64, n: u64)
    requires
        n > 0,
    ensures
        0 <= slot_of(pos, n) < n,
{
    assert(n > 0 ==> (pos & ((n - 1) as u64)) < n) by (bit_vector);
}

proof fn lemma_slots_distinct(t: u64, i: u64, j: u64, n: u64)
    requires
        is_pow2(n),
        i < n,
        j < n,
        i != j,
    ensures
        slot_of(advance(t, i), n) != slot_of(advance(t, j), n),
{
    lemma_pow2_mask(n);
    let a: u64 = advance(t, i);
    let b: u64 = advance(t, j);
    assert(n > 0 && n & ((n - 1) as u64) == 0 && i < n && j < n && i != j && a == (if t + i
        > 0xffff_ffff_ffff_ffff {
        (t + i - 0x1_0000_0000_0000_0000) as u64
    } else {
        (t + i) as u64
    }) && b == (if t + j > 0xffff_ffff_ffff_ffff {
        (t + j - 0x1_0000_0000_0000_0000) as u64
    } else {
        (t + j) as u64
    }) ==> (a & ((n - 1) as u64)) != (b & ((n - 1) as u64))) by (bit_vector);
}

/// How far `head` is ahead of `tail`, wrapping at 2^64.
pub open spec fn gap(head: u64, tail: u64) -> int {
    if head >= tail {
        head - tail
    } else {
        head - tail + 0x1_0000_0000_0000_0000
    }
}

/// A bounded queue of `N` slots for one producer and one consumer.
///
/// `head` counts pushes and `tail` counts pops, both modulo 2^64; the value
/// pushed at position `p` lives in slot `p & (N - 1)`.
pub struct RingBuffer<T, const N: usize> {
    head: u64,
    tail: u64,
    slots: Vec<Option<T>>,
}

impl<T, const N: usize> View for RingBuffer<T, N> {
    type V = Seq<T>;

    /// The queued values, oldest first.
    closed spec fn view(&self) -> Seq<T> {
        Seq::new(gap(self.head, self.tail) as nat, |i: int| self.item(i))
    }
}

impl<T, const N: usize> RingBuffer<T, N> {
    /// The slot holding the `i`-th oldest value.
    closed spec fn slot(&self, i: int) -> int {
        slot_of(advance(self.tail, i as u64), N as u64)
    }

    /// The `i`-th oldest value.
    closed spec fn item(&self, i: int) -> T {
        self.slots@[self.slot(i)].unwrap()
    }

    /// The queue invariant: `N` is a power of two, there are `N` slots, the
    /// occupancy is at most `N`, and every occupied slot holds a value.
    pub closed spec fn wf(&self) -> bool {
        &&& is_pow2(N as u64)
        &&& self.slots@.len() == N
        &&& gap(self.head, self.tail) <= N
        &&& forall|i: int|
            0 <= i < gap(self.head, self.tail) ==> (#[trigger] self.slots@[self.slot(i)]).is_some()
    }

    /// A well-formed queue never holds more than `N` values.
    pub proof fn lemma_len_bounded(&self)
        requires
            self.wf(),
        ensures
            self@.len() <= N,
    {
    }

    /// An empty queue. `N` must be a power of two.
    pub fn new() -> (q: Self)
        requires
            is_pow2(N as u64),
        ensures
            q.wf(),
            q@ == Seq::<T>::empty(),
    {
        let mut slots: Vec<Option<T>> = Vec::new();
        let mut i: usize = 0;
        while i < N
            invariant
                i <= N,
                slots@.len() == i,
            decreases N - i,
        {
            slots.push(None);
            i += 1;
        }
        let q = RingBuffer { head: 0, tail: 0, slots };
        assert(q@ =~= Seq::<T>::empty());
        q
    }

    /// Appends `value` unless the queue is full; a full queue hands the value
    /// back and stays as it was.
    pub fn push(&mut self, value: T) -> (r: Result<(), T>)
        requires
            old(self).wf(),
        ensures
            final(self).wf(),
            old(self)@.len() < N ==> r is Ok && final(self)@ == old(self)@.push(value),
            old(self)@.len() >= N ==> r == Err::<(), T>(value) && final(self)@ == old(self)@,
    {
        let occ: u64 = self.head.wrapping_sub(self.tail);
        if occ >= N as u64 {
            return Err(value);
        }
        let masked: u64 = self.head & (N as u64 - 1);
        proof {
            lemma_slot_in_range(self.head, N as u64);
        }
        let idx: usize = masked as usize;
        proof {
            assert(advance(self.tail, occ) == self.head);
            assert forall|i: int| 0 <= i < occ implies 0 <= self.slot(i) < N && self.slot(i)
                != idx by {
                lemma_slot_in_range(advance(self.tail, i as u64), N as u64);
                lemma_slots_distinct(self.tail, i as u64, occ, N as u64);
            }
        }
        self.slots[idx] = Some(value);
        self.head = self.head.wrapping_add(1);
        proof {
            assert(gap(self.head, self.tail) == occ + 1);
            assert(self.slot(occ as int) == idx);
            assert forall|i: int| 0 <= i < occ + 1 implies (#[trigger] self.slots@[self.slot(
                i,
            )]).is_some() by {
                if i < occ {
                    assert(self.slot(i) == old(self).slot(i));
                    assert(old(self).slots@[old(self).slot(i)].is_some());
                }
            }
            assert forall|i: int| 0 <= i < occ implies self.item(i) == old(self).item(i) by {
                assert(self.slot(i) == old(self).slot(i));
            }
            assert(self@ =~= old(self)@.push(value));
        }
        Ok(())
    }

    /// Removes and returns the oldest value, or returns `None` from an empty
    /// queue.
    pub fn pop(&mut self) -> (r: Option<T>)
        requires
            old(self).wf(),
        ensures
            final(self).wf(),
            old(self)@.len() == 0 ==> r is None && final(self)@ == old(self)@,
            old(self)@.len() > 0 ==> r == Some(old(self)@[0]) && final(self)@ == old(self)@.drop_first(),
    {
        if self.tail == self.head {
            return None;
        }
        let ghost occ: int = gap(self.head, self.tail);
        let masked: u64 = self.tail & (N as u64 - 1);
        proof {
            lemma_slot_in_range(self.tail, N as u64);
        }
        let idx: usize = masked as usize;
        proof {
            assert(advance(self.tail, 0) == self.tail);
            assert(self.slot(0) == idx);
            assert(self.slots@[self.slot(0)].is_some());
            assert forall|i: int| 1 <= i < occ implies 0 <= self.slot(i) < N && self.slot(i)
                != idx by {
                lemma_slot_in_range(advance(self.tail, i as u64), N as u64);
                lemma_slots_distinct(self.tail, i as u64, 0, N as u64);
            }
        }
        let value = self.slots[idx].take();
        self.tail = self.tail.wrapping_add(1);
        proof {
            assert(gap(self.head, self.tail) == occ - 1);
            assert forall|i: int| 0 <= i < occ - 1 implies self.slot(i) == old(self).slot(i + 1) by {
                assert(advance(self.tail, i as u64) == advance(old(self).tail, (i + 1) as u64));
            }
            assert forall|i: int| 0 <= i < occ - 1 implies (#[trigger] self.slots@[self.slot(
                i,
            )]).is_some() by {
                assert(self.slot(i) == old(self).slot(i + 1));
                assert(old(self).slots@[old(self).slot(i + 1)].is_some());
            }
            assert forall|i: int| 0 <= i < occ - 1 implies self.item(i) == old(self).item(i + 1) by {
                assert(self.slot(i) == old(self).slot(i + 1));
            }
            assert(self@ =~= old(self)@.drop_first());
            assert(old(self)@[0] == old(self).item(0));
        }
        value
    }

    /// True when nothing is queued.
    pub fn is_empty(&self) -> (b: bool)
        requires
            self.wf(),
        ensures
            b == (self@.len() == 0),
    {
        self.tail == self.head
    }

    /// True when all `N` slots are occupied.
    pub fn is_full(&self) -> (b: bool)
        requires
            self.wf(),
        ensures
            b == (self@.len() == N),
    {
        self.head.wrapping_sub(self.tail) >= N as u64
    }

    /// The number of queued values.
    pub fn len(&self) -> (n: usize)
        requires
            self.wf(),
        ensures
            n == self@.len(),
            n <= N,
    {
        self.head.wrapping_sub(self.tail) as usize
    }
}

/// One call made on a queue during a session.
pub enum QueueOp<T> {
    /// The producer offers a value.
    Push(T),
    /// The consumer asks for a value.
    Pop,
}

/// What a session has seen so far.
pub struct Session<T> {
    /// The values now queued, oldest first.
    pub queued: Seq<T>,
    /// How many values the producer offered.
    pub offered: nat,
    /// The values the queue accepted, in order.
    pub pushed: Seq<T>,
    /// The values the consumer received, in order.
    pub popped: Seq<T>,
}

/// The session before any call.
pub open spec fn session_start<T>() -> Session<T> {
    Session { queued: Seq::empty(), offered: 0, pushed: Seq::empty(), popped: Seq::empty() }
}

/// The effect of one call on a session over a queue of `cap` slots, as the
/// contracts of `push` and `pop` give it.
pub open spec fn session_step<T>(s: Session<T>, op: QueueOp<T>, cap: nat) -> Session<T> {
    match op {
        QueueOp::Push(v) => if s.queued.len() < cap {
            Session {
                queued: s.queued.push(v),
                offered: s.offered + 1,
                pushed: s.pushed.push(v),
                popped: s.popped,
            }
        } else {
            Session { offered: s.offered + 1, ..s }
        },
        QueueOp::Pop => if s.queued.len() > 0 {
            Session { queued: s.queued.drop_first(), popped: s.popped.push(s.queued[0]), ..s }
        } else {
            s
        },
    }
}

/// The session after the calls `ops`, made in order on an empty queue.
pub open spec fn session_run<T>(ops: Seq<QueueOp<T>>, cap: nat) -> Session<T>
    decreases ops.len(),
{
    if ops.len() == 0 {
        session_start()
    } else {
        session_step(session_run(ops.drop_last(), cap), ops.last(), cap)
    }
}

/// First in, first out: at every point of a session, the values received
/// followed by the values still queued are exactly the values accepted, so
/// what was received is a prefix of what was accepted.
pub proof fn lemma_fifo<T>(ops: Seq<QueueOp<T>>, cap: nat)
    ensures
        session_run(ops, cap).popped + session_run(ops, cap).queued == session_run(
            ops,
            cap,
        ).pushed,
        session_run(ops, cap).popped.is_prefix_of(session_run(ops, cap).pushed),
        session_run(ops, cap).queued.len() <= cap,
    decreases ops.len(),
{
    let s = session_run(ops, cap);
    if ops.len() == 0 {
        assert(s.popped + s.queued =~= s.pushed);
    } else {
        let p = session_run(ops.drop_last(), cap);
        lemma_fifo(ops.drop_last(), cap);
        assert(s.popped + s.queued =~= s.pushed);
    }
    assert(s.popped =~= s.pushed.subrange(0, s.popped.len() as int));
}

/// Accounting: no more values are received than accepted, no more accepted
/// than offered, and once the queue is drained the two counts agree.
pub proof fn lemma_session_counts<T>(ops: Seq<QueueOp<T>>, cap: nat)
    ensures
        session_run(ops, cap).popped.len() <= session_run(ops, cap).pushed.len(),
        session_run(ops, cap).pushed.len() <= session_run(ops, cap).offered,
        session_run(ops, cap).queued.len() == 0 ==> session_run(ops, cap).popped.len()
            == session_run(ops, cap).pushed.len(),
    decreases ops.len(),
{
    lemma_fifo(ops, cap);
    let s = session_run(ops, cap);
    assert((s.popped + s.queued).len() == s.popped.len() + s.queued.len());
    if ops.len() > 0 {
        lemma_session_counts(ops.drop_last(), cap);
    }
}

} // verus!
