//! Synthetic workload: random events offered to the first queue, with every
//! offer accounted as pushed or dropped.

use crate::ring::RingBuffer;
use crate::tsc::{rdtsc, tsc_to_ns, TscClock};
use crate::types::Transaction;
use vstd::prelude::*;

verus! {

/// `rand::rngs::ThreadRng`: a handle to the calling thread's random number
/// generator, carried through unopened.
#[verifier::external_type_specification]
#[verifier::external_body]
pub struct ExThreadRng(rand::rngs::ThreadRng);

/// Calls `rand::thread_rng`, which hands out the calling thread's generator.
/// The contract claims nothing of it.
#[verifier::external_body]
fn thread_generator() -> rand::rngs::ThreadRng {
    rand::thread_rng()
}

/// Calls `rand::Rng::gen_range` on the half-open range `low..high`. The
/// method panics on an empty range, which `requires` leaves out, and returns
/// a value inside the range; which one is not claimed.
#[verifier::external_body]
fn random_in(rng: &mut rand::rngs::ThreadRng, low: i64, high: i64) -> (r: i64)
    requires
        low < high,
    ensures
        low <= r < high,
{
    rand::Rng::gen_range(rng, low..high)
}

/// Counts kept while offering events to a queue.
#[derive(Debug, Clone, Copy, PartialEq, Eq, Structural)]
pub struct SyntheticStats {
    /// Events offered.
    pub generated: u64,
    /// Events the queue accepted.
    pub pushed: u64,
    /// Events the queue handed back because it was full.
    pub dropped: u64,
}

impl SyntheticStats {
    /// Every offer was counted once, as pushed or as dropped.
    pub open spec fn balanced(self) -> bool {
        self.pushed + self.dropped == self.generated
    }
}

impl Default for SyntheticStats {
    fn default() -> (s: SyntheticStats)
        ensures
            s == (SyntheticStats { generated: 0, pushed: 0, dropped: 0 }),
            s.balanced(),
    {
        SyntheticStats { generated: 0, pushed: 0, dropped: 0 }
    }
}

/// The counts after one more offer.
pub open spec fn counted(s: SyntheticStats, accepted: bool) -> SyntheticStats {
    if accepted {
        SyntheticStats { generated: (s.generated + 1) as u64, pushed: (s.pushed + 1) as u64, ..s }
    } else {
        SyntheticStats { generated: (s.generated + 1) as u64, dropped: (s.dropped + 1) as u64, ..s }
    }
}

/// Offers `txn` to the queue and counts the offer: pushed when the queue had
/// room, dropped when it was full. A full queue is left as it was.
pub fn offer<const N: usize>(
    ring: &mut RingBuffer<Transaction, N>,
    txn: Transaction,
    stats: &mut SyntheticStats,
) -> (accepted: bool)
    requires
        old(ring).wf(),
        old(stats).balanced(),
        old(stats).generated < u64::MAX,
    ensures
        final(ring).wf(),
        accepted == (old(ring)@.len() < N),
        accepted ==> final(ring)@ == old(ring)@.push(txn),
        !accepted ==> final(ring)@ == old(ring)@,
        *final(stats) == counted(*old(stats), accepted),
        final(stats).balanced(),
{
    stats.generated = stats.generated + 1;
    match ring.push(txn) {
        Ok(_) => {
            stats.pushed = stats.pushed + 1;
            true
        },
        Err(_) => {
            stats.dropped = stats.dropped + 1;
            false
        },
    }
}

/// The event of a burst around `base_price`: the price is the base plus an
/// offset, the side is bid for 0 and ask for 1.
pub open spec fn burst_event_of(
    id: u64,
    base_price: i64,
    offset: i64,
    size: i64,
    side: i64,
    ts: u64,
) -> Transaction {
    Transaction {
        id,
        price: (base_price + offset) as i64,
        size: size as u32,
        side: side as u8,
        ingress_ts_ns: ts,
    }
}

/// Builds the event of a burst from its three random draws.
pub fn burst_event(id: u64, base_price: i64, offset: i64, size: i64, side: i64, ts: u64) -> (t:
    Transaction)
    requires
        5000 < base_price <= i64::MAX - 5000,
        -5000 <= offset < 5000,
        1 <= size < 100,
        0 <= side < 2,
    ensures
        t == burst_event_of(id, base_price, offset, size, side, ts),
        t.is_valid(),
{
    Transaction::new_unchecked(id, base_price + offset, size as u32, side as u8, ts)
}

/// `t` is an event that a burst around `base_price` may hold at index `id`:
/// price within 5000 below to 5000 above the base, size from 1 to 99, side
/// bid or ask.
pub open spec fn in_burst(t: Transaction, id: u64, base_price: i64) -> bool {
    &&& t.id == id
    &&& base_price - 5000 <= t.price < base_price + 5000
    &&& 1 <= t.size < 100
    &&& t.side <= 1
}

/// Offers `count` random events around `base_price` and returns how many the
/// queue accepted: as many as it had room for. The accepted events are
/// appended in order; the `i`-th offered has id `i`.
pub fn generate_burst(
    ring: &mut RingBuffer<Transaction, 4096>,
    count: usize,
    base_price: i64,
    clock: &TscClock,
) -> (pushed: usize)
    requires
        old(ring).wf(),
        clock.calibrated(),
        5000 < base_price <= i64::MAX - 5000,
    ensures
        final(ring).wf(),
        pushed == if count <= 4096 - old(ring)@.len() {
            count as int
        } else {
            4096 - old(ring)@.len()
        },
        final(ring)@.len() == old(ring)@.len() + pushed,
        final(ring)@.subrange(0, old(ring)@.len() as int) == old(ring)@,
        forall|i: int|
            0 <= i < pushed ==> in_burst(
                #[trigger] final(ring)@[old(ring)@.len() + i],
                i as u64,
                base_price,
            ),
{
    let mut rng = thread_generator();
    let mut pushed: usize = 0;
    let mut i: usize = 0;
    let ghost start = ring@;
    proof {
        ring.lemma_len_bounded();
        assert(ring@.subrange(0, start.len() as int) =~= start);
    }
    while i < count
        invariant
            ring.wf(),
            clock.calibrated(),
            5000 < base_price <= i64::MAX - 5000,
            start.len() <= 4096,
            i <= count,
            pushed <= i,
            pushed == if i <= 4096 - start.len() {
                i as int
            } else {
                4096 - start.len()
            },
            ring@.len() == start.len() + pushed,
            ring@.subrange(0, start.len() as int) == start,
            forall|k: int|
                0 <= k < pushed ==> in_burst(#[trigger] ring@[start.len() + k], k as u64, base_price),
        decreases count - i,
    {
        let offset = random_in(&mut rng, -5000, 5000);
        let size = random_in(&mut rng, 1, 100);
        let side = random_in(&mut rng, 0, 2);
        let ts = tsc_to_ns(clock, rdtsc());
        let txn = burst_event(i as u64, base_price, offset, size, side, ts);
        let ghost before = ring@;
        match ring.push(txn) {
            Ok(_) => {
                proof {
                    assert(ring@.subrange(0, start.len() as int) =~= before.subrange(
                        0,
                        start.len() as int,
                    ));
                    assert forall|k: int| 0 <= k < pushed + 1 implies in_burst(
                        #[trigger] ring@[start.len() + k],
                        k as u64,
                        base_price,
                    ) by {
                        if k < pushed {
                            assert(ring@[start.len() + k] == before[start.len() + k]);
                        }
                    }
                }
                pushed += 1;
            },
            Err(_) => {},
        }
        i += 1;
    }
    pushed
}

/// The event the ingress stage builds from its three random draws: price
/// from 900 000 up to 1 100 000, size from 1 up to 1000.
pub fn ingress_event(id: u64, price: i64, size: i64, side: i64, ts: u64) -> (t: Transaction)
    requires
        900_000 <= price < 1_100_000,
        1 <= size < 1000,
        0 <= side < 2,
    ensures
        t == (Transaction { id, price, size: size as u32, side: side as u8, ingress_ts_ns: ts }),
        t.is_valid(),
{
    Transaction::new_unchecked(id, price, size as u32, side as u8, ts)
}

/// `t` is an event that the ingress stage may build with id `id`.
pub open spec fn from_ingress(t: Transaction, id: u64) -> bool {
    &&& t.id == id
    &&& 900_000 <= t.price < 1_100_000
    &&& 1 <= t.size < 1000
    &&& t.side <= 1
}

/// Builds one random ingress event with id `id`, stamped with `ts`.
pub fn random_event(id: u64, ts: u64) -> (t: Transaction)
    ensures
        from_ingress(t, id),
        t.ingress_ts_ns == ts,
        t.is_valid(),
{
    let mut rng = thread_generator();
    let price = random_in(&mut rng, 900_000, 1_100_000);
    let size = random_in(&mut rng, 1, 1000);
    let side = random_in(&mut rng, 0, 2);
    ingress_event(id, price, size, side, ts)
}

/// One step of synthetic ingress: builds a random event whose id is the
/// number of events generated so far, stamped with the current time, and
/// offers it.
pub fn synthetic_ingress_step(
    ring: &mut RingBuffer<Transaction, 4096>,
    stats: &mut SyntheticStats,
    clock: &TscClock,
) -> (accepted: bool)
    requires
        old(ring).wf(),
        clock.calibrated(),
        old(stats).balanced(),
        old(stats).generated < u64::MAX,
    ensures
        final(ring).wf(),
        accepted == (old(ring)@.len() < 4096),
        accepted ==> final(ring)@.len() == old(ring)@.len() + 1 && final(ring)@.drop_last() == old(
            ring)@ && from_ingress(final(ring)@.last(), old(stats).generated),
        !accepted ==> final(ring)@ == old(ring)@,
        *final(stats) == counted(*old(stats), accepted),
        final(stats).balanced(),
{
    let ts = tsc_to_ns(clock, rdtsc());
    let txn = random_event(stats.generated, ts);
    let accepted = offer(ring, txn, stats);
    proof {
        if accepted {
            assert(ring@.drop_last() =~= old(ring)@);
        }
    }
    accepted
}

} // verus!
