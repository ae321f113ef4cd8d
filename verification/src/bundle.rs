//! The bundle accumulator: events are collected until there are 16 of them
//! or the oldest has waited longer than the timeout, then emitted as one
//! bundle onto the output queue.

use crate::ring::RingBuffer;
use crate::tsc::{elapsed_ticks, rdtsc, ticks_between, tsc_to_ns, TscClock};
use crate::types::{Bundle, Transaction, BUNDLE_MAX};
use vstd::prelude::*;

verus! {

/// How long the oldest event may wait, in nanoseconds.
pub const BUNDLE_TIMEOUT_NS: u64 = 100_000;

/// The output queue had no room for a bundle.
#[derive(Debug, Clone, Copy, PartialEq, Eq, Structural)]
pub struct BundleFull;

/// What a builder holds.
pub struct BuilderState {
    /// The buffered events, oldest first.
    pub events: Seq<Transaction>,
    /// The counter reading when the buffer was opened.
    pub start_tsc: u64,
}

/// The buffer is nonempty and has been open for longer than the timeout at
/// counter reading `now`.
pub open spec fn timed_out(st: BuilderState, clock: TscClock, now: u64) -> bool {
    st.events.len() > 0 && clock.to_ns(ticks_between(st.start_tsc, now)) > BUNDLE_TIMEOUT_NS
}

/// An add at reading `now` begins by flushing: the buffer is full or timed out.
pub open spec fn flushes_first(st: BuilderState, clock: TscClock, now: u64) -> bool {
    st.events.len() >= 16 || timed_out(st, clock, now)
}

/// The empty buffer opened at reading `now`.
pub open spec fn reopened(now: u64) -> BuilderState {
    BuilderState { events: Seq::empty(), start_tsc: now }
}

/// The buffer after `txn` is appended at reading `now`; an empty buffer is
/// opened at `now`.
pub open spec fn appended(st: BuilderState, txn: Transaction, now: u64) -> BuilderState {
    BuilderState {
        events: st.events.push(txn),
        start_tsc: if st.events.len() == 0 {
            now
        } else {
            st.start_tsc
        },
    }
}

/// `b` is the bundle that the buffer `st` is emitted as: its payload is the
/// buffered events, its count their number, its timestamp the opening time.
pub open spec fn emitted_from(b: Bundle, st: BuilderState, clock: TscClock) -> bool {
    &&& b.count == st.events.len()
    &&& 1 <= b.count <= 16
    &&& b.payload() == st.events
    &&& b.timestamp_ns == clock.to_ns(st.start_tsc)
}

/// `after` is `before` with the bundle of `st` appended.
pub open spec fn emitted_onto(
    after: Seq<Bundle>,
    before: Seq<Bundle>,
    st: BuilderState,
    clock: TscClock,
) -> bool {
    &&& after.len() == before.len() + 1
    &&& after.drop_last() == before
    &&& emitted_from(after.last(), st, clock)
}

/// What a flush at reading `now` does: nothing to an empty buffer; a
/// nonempty buffer is emitted and reopened when the queue has room, and is
/// kept, with an error, when it has none.
pub open spec fn flush_post(
    st: BuilderState,
    queue: Seq<Bundle>,
    clock: TscClock,
    now: u64,
    st_after: BuilderState,
    queue_after: Seq<Bundle>,
    r: Result<(), BundleFull>,
) -> bool {
    if st.events.len() == 0 {
        r is Ok && st_after == st && queue_after == queue
    } else if queue.len() < 1024 {
        r is Ok && st_after == reopened(now) && emitted_onto(queue_after, queue, st, clock)
    } else {
        r is Err && st_after == st && queue_after == queue
    }
}

/// What an add at reading `now` does. If the buffer must flush first and the
/// queue is full, the add fails and nothing changes. Otherwise the buffer is
/// flushed if it must be, the event is appended, and a buffer that reached 16
/// events is flushed again; if that last flush finds the queue full the add
/// fails with the event kept in the buffer.
pub open spec fn add_post(
    st: BuilderState,
    queue: Seq<Bundle>,
    txn: Transaction,
    clock: TscClock,
    now: u64,
    st_after: BuilderState,
    queue_after: Seq<Bundle>,
    r: Result<(), BundleFull>,
) -> bool {
    if flushes_first(st, clock, now) {
        if queue.len() >= 1024 {
            r is Err && st_after == st && queue_after == queue
        } else {
            r is Ok && st_after == appended(reopened(now), txn, now) && emitted_onto(
                queue_after,
                queue,
                st,
                clock,
            )
        }
    } else if st.events.len() < 15 {
        r is Ok && st_after == appended(st, txn, now) && queue_after == queue
    } else if queue.len() < 1024 {
        r is Ok && st_after == reopened(now) && emitted_onto(
            queue_after,
            queue,
            appended(st, txn, now),
            clock,
        )
    } else {
        r is Err && st_after == appended(st, txn, now) && queue_after == queue
    }
}

/// A buffer that held events never becomes empty without a bundle of
/// between 1 and 16 events having been put on the queue: the events it held,
/// or those and the one just added.
pub proof fn lemma_emptied_means_emitted(
    st: BuilderState,
    queue: Seq<Bundle>,
    txn: Transaction,
    clock: TscClock,
    now: u64,
    st_after: BuilderState,
    queue_after: Seq<Bundle>,
    r: Result<(), BundleFull>,
)
    requires
        st.events.len() <= 16,
        st_after.events.len() == 0,
        add_post(st, queue, txn, clock, now, st_after, queue_after, r) || (st.events.len() > 0
            && flush_post(st, queue, clock, now, st_after, queue_after, r)),
    ensures
        r is Ok,
        queue_after.len() == queue.len() + 1,
        queue_after.drop_last() == queue,
        1 <= queue_after.last().count <= 16,
        queue_after.last().payload() == st.events || queue_after.last().payload()
            == st.events.push(txn),
{
}

/// The accumulator.
pub struct BundleBuilder {
    buffer: [Transaction; 16],
    count: usize,
    start_tsc: u64,
}

impl View for BundleBuilder {
    type V = BuilderState;

    closed spec fn view(&self) -> BuilderState {
        BuilderState { events: self.buffer@.subrange(0, self.count as int), start_tsc: self.start_tsc }
    }
}

impl BundleBuilder {
    /// At most 16 events are buffered.
    pub closed spec fn wf(&self) -> bool {
        self.count <= 16
    }

    /// A well-formed builder holds at most 16 events.
    pub proof fn lemma_len_bounded(&self)
        requires
            self.wf(),
        ensures
            self@.events.len() <= 16,
    {
    }

    /// An empty builder opened at reading `now`.
    pub fn new_at(now: u64) -> (b: BundleBuilder)
        ensures
            b.wf(),
            b@ == reopened(now),
    {
        let fill = Transaction::new_unchecked(0, 1, 1, 0, 0);
        let b = BundleBuilder { buffer: [fill; 16], count: 0, start_tsc: now };
        assert(b@.events =~= Seq::<Transaction>::empty());
        b
    }

    /// An empty builder opened at the counter's current reading.
    pub fn new() -> (b: BundleBuilder)
        ensures
            b.wf(),
            b@.events == Seq::<Transaction>::empty(),
    {
        BundleBuilder::new_at(rdtsc())
    }

    /// True when the buffer is nonempty and has been open for longer than the
    /// timeout at reading `now`.
    pub fn should_flush_timeout_at(&self, clock: &TscClock, now: u64) -> (b: bool)
        requires
            self.wf(),
            clock.calibrated(),
        ensures
            b == timed_out(self@, *clock, now),
    {
        if self.count == 0 {
            return false;
        }
        let elapsed_ns = tsc_to_ns(clock, elapsed_ticks(self.start_tsc, now));
        elapsed_ns > BUNDLE_TIMEOUT_NS
    }

    /// `should_flush_timeout_at` at the counter's current reading.
    pub fn should_flush_timeout(&self, clock: &TscClock) -> (b: bool)
        requires
            self.wf(),
            clock.calibrated(),
        ensures
            exists|now: u64| b == timed_out(self@, *clock, now),
            self@.events.len() == 0 ==> !b,
    {
        let now = rdtsc();
        let b = self.should_flush_timeout_at(clock, now);
        assert(b == timed_out(self@, *clock, now));
        b
    }

    /// Emits the buffer as one bundle onto `ring` and reopens it at reading
    /// `now`; see `flush_post`.
    pub fn flush_at(&mut self, ring: &mut RingBuffer<Bundle, 1024>, clock: &TscClock, now: u64) -> (r:
        Result<(), BundleFull>)
        requires
            old(self).wf(),
            old(ring).wf(),
            clock.calibrated(),
        ensures
            final(self).wf(),
            final(ring).wf(),
            flush_post(old(self)@, old(ring)@, *clock, now, final(self)@, final(ring)@, r),
    {
        if self.count == 0 {
            return Ok(());
        }
        let bundle = Bundle::with_transactions_unchecked(
            self.buffer,
            self.count as u32,
            tsc_to_ns(clock, self.start_tsc),
        );
        match ring.push(bundle) {
            Ok(_) => {},
            Err(_) => {
                return Err(BundleFull);
            },
        }
        proof {
            let after = ring@;
            assert(after.drop_last() =~= old(ring)@);
            assert(after.last() == bundle);
        }
        self.count = 0;
        self.start_tsc = now;
        assert(self@.events =~= Seq::<Transaction>::empty());
        Ok(())
    }

    /// `flush_at` at the counter's current reading.
    pub fn flush(&mut self, ring: &mut RingBuffer<Bundle, 1024>, clock: &TscClock) -> (r: Result<
        (),
        BundleFull,
    >)
        requires
            old(self).wf(),
            old(ring).wf(),
            clock.calibrated(),
        ensures
            final(self).wf(),
            final(ring).wf(),
            exists|now: u64|
                flush_post(old(self)@, old(ring)@, *clock, now, final(self)@, final(ring)@, r),
    {
        let now = rdtsc();
        let r = self.flush_at(ring, clock, now);
        assert(flush_post(old(self)@, old(ring)@, *clock, now, self@, ring@, r));
        r
    }

    /// Flushes whether or not the buffer is full or timed out.
    pub fn force_flush(&mut self, ring: &mut RingBuffer<Bundle, 1024>, clock: &TscClock) -> (r:
        Result<(), BundleFull>)
        requires
            old(self).wf(),
            old(ring).wf(),
            clock.calibrated(),
        ensures
            final(self).wf(),
            final(ring).wf(),
            exists|now: u64|
                flush_post(old(self)@, old(ring)@, *clock, now, final(self)@, final(ring)@, r),
    {
        self.flush(ring, clock)
    }

    /// Appends `txn` at reading `now`, flushing before and after as needed;
    /// see `add_post`.
    pub fn add_at(
        &mut self,
        txn: Transaction,
        ring: &mut RingBuffer<Bundle, 1024>,
        clock: &TscClock,
        now: u64,
    ) -> (r: Result<(), BundleFull>)
        requires
            old(self).wf(),
            old(ring).wf(),
            clock.calibrated(),
        ensures
            final(self).wf(),
            final(ring).wf(),
            add_post(old(self)@, old(ring)@, txn, *clock, now, final(self)@, final(ring)@, r),
    {
        if self.count >= BUNDLE_MAX || (self.count > 0 && self.should_flush_timeout_at(clock, now)) {
            match self.flush_at(ring, clock, now) {
                Ok(_) => {},
                Err(e) => {
                    return Err(e);
                },
            }
        }
        proof {
            assert(self@.events.len() == self.count);
        }
        if self.count == 0 {
            self.start_tsc = now;
        }
        let ghost before = self@;
        let ghost queue_before = ring@;
        self.buffer[self.count] = txn;
        self.count += 1;
        proof {
            assert(self@.events =~= before.events.push(txn));
            assert(self@ == appended(before, txn, now));
            ring.lemma_len_bounded();
        }
        if self.count >= BUNDLE_MAX {
            match self.flush_at(ring, clock, now) {
                Ok(_) => {},
                Err(e) => {
                    return Err(e);
                },
            }
        }
        Ok(())
    }

    /// `add_at` at the counter's current reading.
    pub fn add(&mut self, txn: Transaction, ring: &mut RingBuffer<Bundle, 1024>, clock: &TscClock) -> (r:
        Result<(), BundleFull>)
        requires
            old(self).wf(),
            old(ring).wf(),
            clock.calibrated(),
        ensures
            final(self).wf(),
            final(ring).wf(),
            exists|now: u64|
                add_post(old(self)@, old(ring)@, txn, *clock, now, final(self)@, final(ring)@, r),
    {
        let now = rdtsc();
        let r = self.add_at(txn, ring, clock, now);
        assert(add_post(old(self)@, old(ring)@, txn, *clock, now, self@, ring@, r));
        r
    }

    /// The number of buffered events.
    pub fn len(&self) -> (n: usize)
        requires
            self.wf(),
        ensures
            n == self@.events.len(),
            n <= 16,
    {
        self.count
    }

    /// True when nothing is buffered.
    pub fn is_empty(&self) -> (b: bool)
        requires
            self.wf(),
        ensures
            b == (self@.events.len() == 0),
    {
        self.count == 0
    }

    /// True when 16 events are buffered.
    pub fn is_full(&self) -> (b: bool)
        requires
            self.wf(),
        ensures
            b == (self@.events.len() == 16),
    {
        self.count >= BUNDLE_MAX
    }
}

impl Default for BundleBuilder {
    fn default() -> (b: BundleBuilder)
        ensures
            b.wf(),
            b@.events == Seq::<Transaction>::empty(),
    {
        BundleBuilder::new()
    }
}

} // verus!
