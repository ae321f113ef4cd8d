//! The four stages of the pipeline as single steps: what each stage does
//! with one event or one bundle, and the drain that empties the queues at
//! shutdown. The caller runs the loops and decides when to poll.

use crate::bundle::{
    add_post, appended, flush_post, flushes_first, reopened, timed_out, BuilderState,
    BundleBuilder,
};
use crate::errors::OrderBookError;
use crate::histogram::LatencyHistogram;
use crate::orderbook::{offered, BookState, BookUpdate, OrderBook};
use crate::ring::RingBuffer;
use crate::tsc::TscClock;
use crate::types::{Bundle, Transaction};
use vstd::prelude::*;

verus! {

/// Per-stage counters. Each wraps at 2^64.
#[derive(Debug, Clone, Copy, PartialEq, Eq, Structural)]
pub struct Stats {
    pub ingress_generated: u64,
    pub ingress_pushed: u64,
    pub ingress_dropped: u64,
    pub orderbook_processed: u64,
    pub orderbook_timeout: u64,
    pub bundle_flushed: u64,
    pub output_received: u64,
}

/// A counter after one more count.
pub open spec fn bumped(x: u64) -> u64 {
    if x == u64::MAX {
        0
    } else {
        (x + 1) as u64
    }
}

fn bump(x: u64) -> (r: u64)
    ensures
        r == bumped(x),
{
    x.wrapping_add(1)
}

impl Stats {
    /// All counters at zero.
    pub fn new() -> (s: Stats)
        ensures
            s == (Stats {
                ingress_generated: 0,
                ingress_pushed: 0,
                ingress_dropped: 0,
                orderbook_processed: 0,
                orderbook_timeout: 0,
                bundle_flushed: 0,
                output_received: 0,
            }),
    {
        Stats {
            ingress_generated: 0,
            ingress_pushed: 0,
            ingress_dropped: 0,
            orderbook_processed: 0,
            orderbook_timeout: 0,
            bundle_flushed: 0,
            output_received: 0,
        }
    }
}

/// What the ingress stage did with one event.
#[derive(Debug, Clone, Copy, PartialEq, Eq, Structural)]
pub enum IngressStep {
    /// The first queue accepted the event.
    Pushed,
    /// The first queue was full and the event was dropped.
    Dropped,
}

/// The ingress stage on one event: count it as generated, push it to the
/// first queue, and count it as pushed or as dropped.
pub fn ingress_step(ring: &mut RingBuffer<Transaction, 4096>, txn: Transaction, stats: &mut Stats) -> (r:
    IngressStep)
    requires
        old(ring).wf(),
    ensures
        final(ring).wf(),
        old(ring)@.len() < 4096 ==> r == IngressStep::Pushed && final(ring)@ == old(ring)@.push(txn)
            && *final(stats) == (Stats {
            ingress_generated: bumped(old(stats).ingress_generated),
            ingress_pushed: bumped(old(stats).ingress_pushed),
            ..*old(stats)
        }),
        old(ring)@.len() >= 4096 ==> r == IngressStep::Dropped && final(ring)@ == old(ring)@
            && *final(stats) == (Stats {
            ingress_generated: bumped(old(stats).ingress_generated),
            ingress_dropped: bumped(old(stats).ingress_dropped),
            ..*old(stats)
        }),
{
    stats.ingress_generated = bump(stats.ingress_generated);
    match ring.push(txn) {
        Ok(_) => {
            stats.ingress_pushed = bump(stats.ingress_pushed);
            IngressStep::Pushed
        },
        Err(_) => {
            stats.ingress_dropped = bump(stats.ingress_dropped);
            IngressStep::Dropped
        },
    }
}

/// The book update an event stands for: a bid adds its size to the bid
/// side, any other event subtracts its size from the ask side.
pub open spec fn update_of(txn: Transaction) -> BookUpdate {
    BookUpdate {
        is_bid: txn.side == 0,
        price: txn.price,
        delta: if txn.side == 0 {
            txn.size as i64
        } else {
            (-(txn.size as int)) as i64
        },
        timestamp: txn.ingress_ts_ns,
    }
}

/// What the order book stage did with one event.
#[derive(Debug, Clone, Copy, PartialEq, Eq, Structural)]
pub enum BookStep {
    /// The update applied and the event went on to the second queue.
    Forwarded,
    /// The update applied and the event was dropped at the full second queue.
    Dropped,
    /// The update did not apply.
    Rejected(OrderBookError),
}

/// Applies the update of `txn` to the book. Returns the update's result.
pub fn apply_to_book(book: &mut OrderBook, txn: &Transaction) -> (r: Result<(), OrderBookError>)
    requires
        old(book).wf(),
    ensures
        final(book).wf(),
        old(book)@.fits(update_of(*txn)) ==> r == Ok::<(), OrderBookError>(()) && final(book)@
            == old(book)@.applied(update_of(*txn)),
        !old(book)@.fits(update_of(*txn)) ==> r == Err::<(), OrderBookError>(
            OrderBookError::QuantityOverflow,
        ) && final(book)@ == old(book)@,
{
    if txn.is_bid() {
        book.update_bid(txn.price, txn.size as i64, txn.ingress_ts_ns)
    } else {
        book.update_ask(txn.price, -(txn.size as i64), txn.ingress_ts_ns)
    }
}

/// The order book stage on one event: apply its update; on success count it
/// as processed and forward it to the second queue, dropping it if that
/// queue is full; on failure count a timeout.
pub fn orderbook_step(
    book: &mut OrderBook,
    txn: Transaction,
    output: &mut RingBuffer<Transaction, 4096>,
    stats: &mut Stats,
) -> (r: BookStep)
    requires
        old(book).wf(),
        old(output).wf(),
    ensures
        final(book).wf(),
        final(output).wf(),
        old(book)@.fits(update_of(txn)) ==> final(book)@ == old(book)@.applied(update_of(txn))
            && *final(stats) == (Stats {
            orderbook_processed: bumped(old(stats).orderbook_processed),
            ..*old(stats)
        }),
        old(book)@.fits(update_of(txn)) && old(output)@.len() < 4096 ==> r == BookStep::Forwarded
            && final(output)@ == old(output)@.push(txn),
        old(book)@.fits(update_of(txn)) && old(output)@.len() >= 4096 ==> r == BookStep::Dropped
            && final(output)@ == old(output)@,
        !old(book)@.fits(update_of(txn)) ==> r == BookStep::Rejected(
            OrderBookError::QuantityOverflow,
        ) && final(book)@ == old(book)@ && final(output)@ == old(output)@ && *final(stats) == (Stats {
            orderbook_timeout: bumped(old(stats).orderbook_timeout),
            ..*old(stats)
        }),
{
    match apply_to_book(book, &txn) {
        Ok(_) => {
            stats.orderbook_processed = bump(stats.orderbook_processed);
            match output.push(txn) {
                Ok(_) => BookStep::Forwarded,
                Err(_) => BookStep::Dropped,
            }
        },
        Err(e) => {
            stats.orderbook_timeout = bump(stats.orderbook_timeout);
            BookStep::Rejected(e)
        },
    }
}

/// Why a bundle was emitted.
#[derive(Debug, Clone, Copy, PartialEq, Eq, Structural)]
pub enum FlushReason {
    /// The buffer held 16 events.
    Size,
    /// The oldest buffered event had waited longer than the timeout.
    Timeout,
}

/// What the bundle stage did with one event.
#[derive(Debug, Clone, Copy, PartialEq, Eq, Structural)]
pub struct BundleStep {
    /// The add succeeded.
    pub added: bool,
    /// A bundle was emitted, and why.
    pub flushed: Option<FlushReason>,
}

/// The emission that a successful add at reading `now` makes, if any: a
/// timed-out buffer of fewer than 16 events is emitted for its timeout, a
/// buffer of 16 for its size.
pub open spec fn flush_of_add(st: BuilderState, queue_len: nat, clock: TscClock, now: u64) -> Option<
    FlushReason,
> {
    if queue_len >= 1024 {
        None
    } else if flushes_first(st, clock, now) {
        if st.events.len() >= 16 {
            Some(FlushReason::Size)
        } else {
            Some(FlushReason::Timeout)
        }
    } else if st.events.len() == 15 {
        Some(FlushReason::Size)
    } else {
        None
    }
}

/// The bundle stage on one event: add it to the builder at reading `now`,
/// and count the bundle that the add emitted, if it emitted one.
pub fn bundle_step(
    builder: &mut BundleBuilder,
    txn: Transaction,
    output: &mut RingBuffer<Bundle, 1024>,
    stats: &mut Stats,
    clock: &TscClock,
    now: u64,
) -> (r: BundleStep)
    requires
        old(builder).wf(),
        old(output).wf(),
        clock.calibrated(),
    ensures
        final(builder).wf(),
        final(output).wf(),
        add_post(
            old(builder)@,
            old(output)@,
            txn,
            *clock,
            now,
            final(builder)@,
            final(output)@,
            if r.added {
                Ok::<(), crate::bundle::BundleFull>(())
            } else {
                Err::<(), crate::bundle::BundleFull>(crate::bundle::BundleFull)
            },
        ),
        r.flushed == flush_of_add(old(builder)@, old(output)@.len(), *clock, now),
        r.flushed is Some ==> r.added && *final(stats) == (Stats {
            bundle_flushed: bumped(old(stats).bundle_flushed),
            ..*old(stats)
        }),
        r.flushed is None ==> *final(stats) == *old(stats),
{
    proof {
        builder.lemma_len_bounded();
        output.lemma_len_bounded();
    }
    let held = builder.len();
    let late = builder.should_flush_timeout_at(clock, now);
    let room = !output.is_full();
    let reason = if !room {
        None
    } else if held >= 16 {
        Some(FlushReason::Size)
    } else if late {
        Some(FlushReason::Timeout)
    } else if held == 15 {
        Some(FlushReason::Size)
    } else {
        None
    };
    match builder.add_at(txn, output, clock, now) {
        Ok(_) => {
            match reason {
                Some(_) => {
                    stats.bundle_flushed = bump(stats.bundle_flushed);
                },
                None => {},
            }
            BundleStep { added: true, flushed: reason }
        },
        Err(_) => BundleStep { added: false, flushed: reason },
    }
}

/// The bundle stage on an empty poll: a buffer that has timed out at
/// reading `now` is emitted and counted, if the output queue has room.
/// Returns whether a bundle was emitted.
pub fn bundle_idle(
    builder: &mut BundleBuilder,
    output: &mut RingBuffer<Bundle, 1024>,
    stats: &mut Stats,
    clock: &TscClock,
    now: u64,
) -> (emitted: bool)
    requires
        old(builder).wf(),
        old(output).wf(),
        clock.calibrated(),
    ensures
        final(builder).wf(),
        final(output).wf(),
        emitted == (timed_out(old(builder)@, *clock, now) && old(output)@.len() < 1024),
        emitted ==> flush_post(
            old(builder)@,
            old(output)@,
            *clock,
            now,
            final(builder)@,
            final(output)@,
            Ok::<(), crate::bundle::BundleFull>(()),
        ) && *final(stats) == (Stats {
            bundle_flushed: bumped(old(stats).bundle_flushed),
            ..*old(stats)
        }),
        !emitted ==> final(builder)@ == old(builder)@ && final(output)@ == old(output)@ && *final(
            stats) == *old(stats),
{
    proof {
        output.lemma_len_bounded();
    }
    if builder.should_flush_timeout_at(clock, now) {
        match builder.flush_at(output, clock, now) {
            Ok(_) => {
                stats.bundle_flushed = bump(stats.bundle_flushed);
                true
            },
            Err(_) => false,
        }
    } else {
        false
    }
}

/// The time from the ingress of a bundle's first event to `now_ns`, and 0
/// if that event is stamped later than `now_ns`.
pub open spec fn latency_of(bundle: Bundle, now_ns: u64) -> u64 {
    if now_ns >= bundle.transactions@[0].ingress_ts_ns {
        (now_ns - bundle.transactions@[0].ingress_ts_ns) as u64
    } else {
        0
    }
}

/// The output stage on one bundle: count it once, and record its
/// end-to-end latency at time `now_ns`. Returns the latency.
pub fn output_step(
    bundle: &Bundle,
    hist: &mut LatencyHistogram,
    stats: &mut Stats,
    now_ns: u64,
) -> (latency: u64)
    requires
        old(hist).wf(),
        old(hist)@.len() < u64::MAX,
    ensures
        final(hist).wf(),
        latency == latency_of(*bundle, now_ns),
        final(hist)@ == old(hist)@.push(latency),
        *final(stats) == (Stats {
            output_received: bumped(old(stats).output_received),
            ..*old(stats)
        }),
{
    stats.output_received = bump(stats.output_received);
    let first_ns = bundle.transactions[0].ingress_ts_ns;
    let latency = if now_ns >= first_ns {
        now_ns - first_ns
    } else {
        0
    };
    hist.record(latency);
    latency
}

/// A counter after `n` more counts.
pub open spec fn bumped_by(x: u64, n: nat) -> u64 {
    ((x + n) % 0x1_0000_0000_0000_0000) as u64
}

/// The book after the updates of `events`, offered in order.
pub open spec fn book_after(s: BookState, events: Seq<Transaction>) -> BookState
    decreases events.len(),
{
    if events.len() == 0 {
        s
    } else {
        offered(book_after(s, events.drop_last()), update_of(events.last()))
    }
}

/// The builder after an add at reading `now`, facing an output queue that
/// holds `queue_len` bundles.
pub open spec fn builder_after_add(
    st: BuilderState,
    queue_len: nat,
    txn: Transaction,
    clock: TscClock,
    now: u64,
) -> BuilderState {
    if flushes_first(st, clock, now) {
        if queue_len >= 1024 {
            st
        } else {
            appended(reopened(now), txn, now)
        }
    } else if st.events.len() < 15 {
        appended(st, txn, now)
    } else if queue_len < 1024 {
        reopened(now)
    } else {
        appended(st, txn, now)
    }
}

/// The length of the output queue after that add.
pub open spec fn queue_len_after_add(
    st: BuilderState,
    queue_len: nat,
    clock: TscClock,
    now: u64,
) -> nat {
    if flush_of_add(st, queue_len, clock, now) is Some {
        queue_len + 1
    } else {
        queue_len
    }
}

/// The builder and the length of the output queue after `events` are added
/// in order, all at reading `now`.
pub open spec fn fed(
    st: BuilderState,
    queue_len: nat,
    events: Seq<Transaction>,
    clock: TscClock,
    now: u64,
) -> (BuilderState, nat)
    decreases events.len(),
{
    if events.len() == 0 {
        (st, queue_len)
    } else {
        let (s, n) = fed(st, queue_len, events.drop_last(), clock, now);
        (builder_after_add(s, n, events.last(), clock, now), queue_len_after_add(s, n, clock, now))
    }
}

/// How many of `n` events a queue of 4096 slots that holds `held` accepts.
pub open spec fn accepted_of(n: nat, held: nat) -> nat {
    if n <= 4096 - held {
        n
    } else {
        (4096 - held) as nat
    }
}

/// What a drain leaves behind and reports.
pub struct Drained {
    /// The book after the drain.
    pub book: BookState,
    /// The builder after the drain.
    pub builder: BuilderState,
    /// The counters after the drain.
    pub stats: Stats,
    /// Events popped from the first queue plus events popped from the second.
    pub transactions: nat,
    /// Bundles flushed at the end plus bundles popped from the third queue.
    pub bundles: nat,
}

/// The outcome of a drain at reading `now`. Every event of the first queue
/// is offered to the book and counted as processed; as many as fit go on to
/// the second queue. Every event of the second queue is added to the
/// builder. A builder that still holds events is flushed if the third queue
/// has room. Every bundle of the third queue is counted as received. Every
/// bundle emitted on the way is counted as flushed.
pub open spec fn drained(
    q1: Seq<Transaction>,
    q2: Seq<Transaction>,
    q3_len: nat,
    book: BookState,
    builder: BuilderState,
    stats: Stats,
    clock: TscClock,
    now: u64,
) -> Drained {
    let forwarded = q2 + q1.subrange(0, accepted_of(q1.len(), q2.len()) as int);
    let (st, n) = fed(builder, q3_len, forwarded, clock, now);
    let last = st.events.len() > 0 && n < 1024;
    let total = if last {
        n + 1
    } else {
        n
    };
    Drained {
        book: book_after(book, q1),
        builder: if last {
            reopened(now)
        } else {
            st
        },
        stats: Stats {
            orderbook_processed: bumped_by(stats.orderbook_processed, q1.len()),
            bundle_flushed: bumped_by(stats.bundle_flushed, (total - q3_len) as nat),
            output_received: bumped_by(stats.output_received, total),
            ..stats
        },
        transactions: q1.len() + forwarded.len(),
        bundles: if last {
            total + 1
        } else {
            total
        },
    }
}

proof fn lemma_bumped_by(x: u64, n: nat)
    ensures
        bumped_by(x, 0) == x,
        bumped(bumped_by(x, n)) == bumped_by(x, n + 1),
{
}

/// Empties the three queues at shutdown, at reading `now`; see `drained`.
/// Returns the number of events and the number of bundles drained.
pub fn drain_pipeline(
    ingress_ring: &mut RingBuffer<Transaction, 4096>,
    bundle_ring: &mut RingBuffer<Transaction, 4096>,
    output_ring: &mut RingBuffer<Bundle, 1024>,
    book: &mut OrderBook,
    builder: &mut BundleBuilder,
    stats: &mut Stats,
    clock: &TscClock,
    now: u64,
) -> (r: (usize, usize))
    requires
        old(ingress_ring).wf(),
        old(bundle_ring).wf(),
        old(output_ring).wf(),
        old(book).wf(),
        old(builder).wf(),
        clock.calibrated(),
    ensures
        final(ingress_ring).wf(),
        final(bundle_ring).wf(),
        final(output_ring).wf(),
        final(book).wf(),
        final(builder).wf(),
        final(ingress_ring)@.len() == 0,
        final(bundle_ring)@.len() == 0,
        final(output_ring)@.len() == 0,
        final(book)@ == drained(
            old(ingress_ring)@,
            old(bundle_ring)@,
            old(output_ring)@.len(),
            old(book)@,
            old(builder)@,
            *old(stats),
            *clock,
            now,
        ).book,
        final(builder)@ == drained(
            old(ingress_ring)@,
            old(bundle_ring)@,
            old(output_ring)@.len(),
            old(book)@,
            old(builder)@,
            *old(stats),
            *clock,
            now,
        ).builder,
        *final(stats) == drained(
            old(ingress_ring)@,
            old(bundle_ring)@,
            old(output_ring)@.len(),
            old(book)@,
            old(builder)@,
            *old(stats),
            *clock,
            now,
        ).stats,
        r.0 == drained(
            old(ingress_ring)@,
            old(bundle_ring)@,
            old(output_ring)@.len(),
            old(book)@,
            old(builder)@,
            *old(stats),
            *clock,
            now,
        ).transactions,
        r.1 == drained(
            old(ingress_ring)@,
            old(bundle_ring)@,
            old(output_ring)@.len(),
            old(book)@,
            old(builder)@,
            *old(stats),
            *clock,
            now,
        ).bundles,
{
    let ghost q1 = ingress_ring@;
    let ghost q2 = bundle_ring@;
    let ghost q3_len = output_ring@.len();
    let ghost book0 = book@;
    let ghost st0 = builder@;
    let ghost stats0 = *stats;
    proof {
        ingress_ring.lemma_len_bounded();
        bundle_ring.lemma_len_bounded();
        output_ring.lemma_len_bounded();
        lemma_bumped_by(stats0.orderbook_processed, 0);
        assert(q1.subrange(0, 0) =~= Seq::<Transaction>::empty());
        assert(q2 + q1.subrange(0, 0) =~= q2);
        assert(q1.subrange(0, q1.len() as int) =~= q1);
    }
    let mut drained_txns: usize = 0;
    let mut drained_bundles: usize = 0;

    // The first queue goes through the book and on to the second queue.
    let ghost mut i: nat = 0;
    loop
        invariant
            ingress_ring.wf(),
            bundle_ring.wf(),
            book.wf(),
            q1.len() <= 4096,
            q2.len() <= 4096,
            i <= q1.len(),
            drained_txns == i,
            ingress_ring@ == q1.subrange(i as int, q1.len() as int),
            bundle_ring@ == q2 + q1.subrange(0, accepted_of(i, q2.len()) as int),
            book@ == book_after(book0, q1.subrange(0, i as int)),
            *stats == (Stats {
                orderbook_processed: bumped_by(stats0.orderbook_processed, i),
                ..stats0
            }),
        ensures
            i == q1.len(),
            ingress_ring@.len() == 0,
        decreases q1.len() - i,
    {
        let txn = match ingress_ring.pop() {
            Some(t) => t,
            None => {
                break ;
            },
        };
        proof {
            assert(txn == q1[i as int]);
            let upto = q1.subrange(0, i as int + 1);
            assert(upto.drop_last() =~= q1.subrange(0, i as int));
            assert(upto.last() == txn);
            lemma_bumped_by(stats0.orderbook_processed, i);
        }
        let _ = apply_to_book(book, &txn);
        stats.orderbook_processed = bump(stats.orderbook_processed);
        drained_txns += 1;
        let ghost held = bundle_ring@;
        let _ = bundle_ring.push(txn);
        proof {
            let k = accepted_of(i, q2.len());
            assert(held.len() == q2.len() + k);
            if held.len() < 4096 {
                assert(k == i);
                assert(q1.subrange(0, i as int).push(txn) =~= q1.subrange(0, i as int + 1));
                assert(bundle_ring@ =~= q2 + q1.subrange(0, i as int + 1));
            }
            assert(ingress_ring@ =~= q1.subrange(i as int + 1, q1.len() as int));
            i = i + 1;
        }
    }

    // The second queue goes into the builder.
    let ghost forwarded = bundle_ring@;
    let ghost mut j: nat = 0;
    proof {
        assert(forwarded.subrange(0, 0) =~= Seq::<Transaction>::empty());
        assert(forwarded.subrange(0, forwarded.len() as int) =~= forwarded);
        lemma_bumped_by(stats0.bundle_flushed, 0);
    }
    let ghost stats1 = *stats;
    loop
        invariant
            bundle_ring.wf(),
            output_ring.wf(),
            builder.wf(),
            clock.calibrated(),
            forwarded.len() <= 4096,
            q3_len <= 1024,
            j <= forwarded.len(),
            drained_txns == q1.len() + j,
            q1.len() <= 4096,
            bundle_ring@ == forwarded.subrange(j as int, forwarded.len() as int),
            (builder@, output_ring@.len()) == fed(
                st0,
                q3_len,
                forwarded.subrange(0, j as int),
                *clock,
                now,
            ),
            q3_len <= output_ring@.len() <= 1024,
            *stats == (Stats {
                bundle_flushed: bumped_by(
                    stats0.bundle_flushed,
                    (output_ring@.len() - q3_len) as nat,
                ),
                ..stats1
            }),
        ensures
            j == forwarded.len(),
            bundle_ring@.len() == 0,
        decreases forwarded.len() - j,
    {
        let txn = match bundle_ring.pop() {
            Some(t) => t,
            None => {
                break ;
            },
        };
        proof {
            assert(txn == forwarded[j as int]);
            let upto = forwarded.subrange(0, j as int + 1);
            assert(upto.drop_last() =~= forwarded.subrange(0, j as int));
            assert(upto.last() == txn);
            lemma_bumped_by(stats0.bundle_flushed, (output_ring@.len() - q3_len) as nat);
            builder.lemma_len_bounded();
        }
        let _ = bundle_step(builder, txn, output_ring, stats, clock, now);
        drained_txns += 1;
        proof {
            output_ring.lemma_len_bounded();
            assert(bundle_ring@ =~= forwarded.subrange(j as int + 1, forwarded.len() as int));
            j = j + 1;
        }
    }

    // What the builder still holds is flushed.
    let ghost stats2 = *stats;
    let ghost n = output_ring@.len();
    proof {
        builder.lemma_len_bounded();
        lemma_bumped_by(stats0.bundle_flushed, (n - q3_len) as nat);
    }
    if !builder.is_empty() {
        match builder.flush_at(output_ring, clock, now) {
            Ok(_) => {
                stats.bundle_flushed = bump(stats.bundle_flushed);
                drained_bundles += 1;
            },
            Err(_) => {},
        }
    }

    // The third queue is counted out.
    let ghost total = output_ring@.len();
    let ghost stats3 = *stats;
    let ghost base = drained_bundles;
    let ghost mut k: nat = 0;
    proof {
        output_ring.lemma_len_bounded();
        lemma_bumped_by(stats0.output_received, 0);
    }
    loop
        invariant
            output_ring.wf(),
            total <= 1024,
            k <= total,
            base <= 1,
            drained_bundles == base + k,
            output_ring@.len() == total - k,
            *stats == (Stats { output_received: bumped_by(stats0.output_received, k), ..stats3 }),
            stats3.output_received == stats0.output_received,
        ensures
            k == total,
            output_ring@.len() == 0,
        decreases total - k,
    {
        match output_ring.pop() {
            Some(_) => {},
            None => {
                break ;
            },
        }
        proof {
            lemma_bumped_by(stats0.output_received, k);
            k = k + 1;
        }
        stats.output_received = bump(stats.output_received);
        drained_bundles += 1;
    }
    (drained_txns, drained_bundles)
}

} // verus!
