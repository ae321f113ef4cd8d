//! A price-aggregated depth table: 1024 levels per side, 16 ticks per level,
//! with the best bid and the best ask tracked beside it.
//!
//! Each level is updated by a bounded compare-and-swap loop. The book is
//! owned exclusively by its caller, so a swap never meets a competing write;
//! a weak swap may still fail for no reason, and how often it does is an
//! input of the contended updates.

use crate::errors::OrderBookError;
use vstd::prelude::*;

verus! {

/// Levels per side.
pub const LEVELS: usize = 1024;

/// Each level spans `2^TICK_SHIFT` ticks.
pub const TICK_SHIFT: u32 = 4;

/// Attempts a compare-and-swap loop makes before it gives up.
pub const MAX_RETRIES: usize = 100;

/// Most spin-pauses taken after one failed attempt.
pub const MAX_SPINS: u32 = 64;

/// The value of `best_bid` when no bid is best.
pub const NO_BID: i64 = 0;

/// The value of `best_ask` when no ask is best.
pub const NO_ASK: i64 = i64::MAX;

/// The level a price falls on: the price in units of 16 ticks, modulo 1024.
pub open spec fn level_of(price: i64) -> int {
    (price as int / 16) % 1024
}

/// The number of spin-pauses after the next failed attempt: double, capped.
pub open spec fn spins_after(spins: u32) -> u32 {
    if spins >= 32 {
        64
    } else {
        (2 * spins) as u32
    }
}

/// The best bid after the level of `price` reached `new_qty`: raised to
/// `price` when the level is positive and the price is higher, cleared when
/// the level is depleted at the best price, else kept.
pub open spec fn best_bid_after(best: i64, price: i64, new_qty: i64) -> i64 {
    if new_qty > 0 {
        if price > best {
            price
        } else {
            best
        }
    } else if price == best {
        NO_BID
    } else {
        best
    }
}

/// The best ask after the level of `price` reached `new_qty`: lowered to
/// `price` when the level is positive and the price is lower, cleared when
/// the level is depleted at the best price, else kept.
pub open spec fn best_ask_after(best: i64, price: i64, new_qty: i64) -> i64 {
    if new_qty > 0 {
        if price < best {
            price
        } else {
            best
        }
    } else if price == best {
        NO_ASK
    } else {
        best
    }
}

/// What a book holds.
pub struct BookState {
    /// Net quantity of each bid level.
    pub bid_qty: Seq<i64>,
    /// Time of the last update of each bid level.
    pub bid_ts: Seq<u64>,
    /// Net quantity of each ask level.
    pub ask_qty: Seq<i64>,
    /// Time of the last update of each ask level.
    pub ask_ts: Seq<u64>,
    /// Highest bid price seen with a positive level, or `NO_BID`.
    pub best_bid: i64,
    /// Lowest ask price seen with a positive level, or `NO_ASK`.
    pub best_ask: i64,
}

/// One update offered to a book.
pub struct BookUpdate {
    pub is_bid: bool,
    pub price: i64,
    pub delta: i64,
    pub timestamp: u64,
}

/// A book with every level at zero and no best price on either side.
pub open spec fn empty_book() -> BookState {
    BookState {
        bid_qty: Seq::new(1024, |i: int| 0i64),
        bid_ts: Seq::new(1024, |i: int| 0u64),
        ask_qty: Seq::new(1024, |i: int| 0i64),
        ask_ts: Seq::new(1024, |i: int| 0u64),
        best_bid: NO_BID,
        best_ask: NO_ASK,
    }
}

impl BookState {
    /// Each side has 1024 levels, and the best bid is never negative.
    pub open spec fn wf(self) -> bool {
        self.bid_qty.len() == 1024 && self.bid_ts.len() == 1024 && self.ask_qty.len() == 1024
            && self.ask_ts.len() == 1024 && self.best_bid >= 0
    }

    /// The update keeps its level inside the signed 64-bit range.
    pub open spec fn fits(self, u: BookUpdate) -> bool {
        let q = if u.is_bid {
            self.bid_qty[level_of(u.price)]
        } else {
            self.ask_qty[level_of(u.price)]
        };
        i64::MIN <= q + u.delta <= i64::MAX
    }

    /// The book after an update that fits: the delta is added to the level,
    /// the level's time is set, and the side's best price is refreshed.
    pub open spec fn applied(self, u: BookUpdate) -> BookState {
        let l = level_of(u.price);
        if u.is_bid {
            let q = (self.bid_qty[l] + u.delta) as i64;
            BookState {
                bid_qty: self.bid_qty.update(l, q),
                bid_ts: self.bid_ts.update(l, u.timestamp),
                best_bid: best_bid_after(self.best_bid, u.price, q),
                ..self
            }
        } else {
            let q = (self.ask_qty[l] + u.delta) as i64;
            BookState {
                ask_qty: self.ask_qty.update(l, q),
                ask_ts: self.ask_ts.update(l, u.timestamp),
                best_ask: best_ask_after(self.best_ask, u.price, q),
                ..self
            }
        }
    }

    /// The spread: zero while either side has no best price, else best ask
    /// minus best bid.
    pub open spec fn spread(self) -> int {
        if self.best_ask == NO_ASK || self.best_bid == NO_BID {
            0
        } else {
            self.best_ask - self.best_bid
        }
    }
}

/// The result of an update whose first `failed_swaps` compare-and-swaps
/// fail: an overflow is found before any swap, 100 failures time out, and
/// anything else succeeds.
pub open spec fn update_result(s: BookState, u: BookUpdate, failed_swaps: u32) -> Result<
    (),
    OrderBookError,
> {
    if !s.fits(u) {
        Err(OrderBookError::QuantityOverflow)
    } else if failed_swaps >= 100 {
        Err(OrderBookError::Timeout)
    } else {
        Ok(())
    }
}

/// The book after that update: applied when it succeeds, else unchanged.
pub open spec fn updated(s: BookState, u: BookUpdate, failed_swaps: u32) -> BookState {
    if s.fits(u) && failed_swaps < 100 {
        s.applied(u)
    } else {
        s
    }
}

/// A compare-and-swap loop ends within 100 attempts: it succeeds, finds an
/// overflow, or times out, and only a success changes the book.
pub proof fn lemma_update_is_bounded(s: BookState, u: BookUpdate, failed_swaps: u32)
    ensures
        update_result(s, u, failed_swaps) is Ok <==> s.fits(u) && failed_swaps < 100,
        update_result(s, u, failed_swaps) == Err::<(), OrderBookError>(OrderBookError::Timeout)
            <==> s.fits(u) && failed_swaps >= 100,
        update_result(s, u, failed_swaps) is Err ==> updated(s, u, failed_swaps) == s,
        update_result(s, u, 0) is Ok <==> s.fits(u),
{
}

/// One level: net quantity and the time of its last update.
struct PriceLevel {
    quantity: i64,
    timestamp: u64,
}

impl PriceLevel {
    fn new() -> (l: PriceLevel)
        ensures
            l.quantity == 0,
            l.timestamp == 0,
    {
        PriceLevel { quantity: 0, timestamp: 0 }
    }

    /// A weak compare-and-swap. When `fails` is set the swap fails for no
    /// reason and changes nothing. Otherwise it replaces the quantity by
    /// `new` if it equals `current`. A failed swap hands back the quantity
    /// found.
    fn compare_exchange_weak(&mut self, current: i64, new: i64, fails: bool) -> (r: Result<
        i64,
        i64,
    >)
        ensures
            final(self).timestamp == old(self).timestamp,
            !fails && old(self).quantity == current ==> r == Ok::<i64, i64>(current) && final(
                self).quantity == new,
            fails || old(self).quantity != current ==> r == Err::<i64, i64>(old(self).quantity)
                && final(self).quantity == old(self).quantity,
    {
        if !fails && self.quantity == current {
            self.quantity = new;
            Ok(current)
        } else {
            Err(self.quantity)
        }
    }
}

/// Calls `core::hint::spin_loop`, which tells the processor that the caller
/// is busy-waiting. It returns nothing and the contract claims nothing.
#[verifier::external_body]
fn spin_pause() {
    core::hint::spin_loop();
}

/// Takes `spins` spin-pauses.
fn pause(spins: u32) {
    let mut i: u32 = 0;
    while i < spins
        invariant
            i <= spins,
        decreases spins - i,
    {
        spin_pause();
        i += 1;
    }
}

/// The number of spin-pauses to take after the next failed attempt.
pub fn next_spins(spins: u32) -> (r: u32)
    ensures
        r == spins_after(spins),
{
    if spins >= 32 {
        MAX_SPINS
    } else {
        2 * spins
    }
}

/// Adds `delta` to the level `idx` of one side by the bounded
/// compare-and-swap loop and returns the quantity reached. The first
/// `failed_swaps` swaps fail; after each failure the loop pauses, doubling
/// the pause up to 64 spins, and after 100 failures it gives up.
fn add_to_level(
    levels: &mut Vec<PriceLevel>,
    idx: usize,
    delta: i64,
    timestamp: u64,
    failed_swaps: u32,
) -> (r: Result<i64, OrderBookError>)
    requires
        idx < old(levels)@.len(),
    ensures
        final(levels)@.len() == old(levels)@.len(),
        forall|i: int|
            0 <= i < old(levels)@.len() && i != idx ==> final(levels)@[i] == old(levels)@[i],
        !(i64::MIN <= old(levels)@[idx as int].quantity + delta <= i64::MAX) ==> r == Err::<
            i64,
            OrderBookError,
        >(OrderBookError::QuantityOverflow) && final(levels)@[idx as int] == old(levels)@[idx as int],
        i64::MIN <= old(levels)@[idx as int].quantity + delta <= i64::MAX && failed_swaps >= 100
            ==> r == Err::<i64, OrderBookError>(OrderBookError::Timeout) && final(
            levels)@[idx as int] == old(levels)@[idx as int],
        i64::MIN <= old(levels)@[idx as int].quantity + delta <= i64::MAX && failed_swaps < 100
            ==> r == Ok::<i64, OrderBookError>(
            (old(levels)@[idx as int].quantity + delta) as i64,
        ) && final(levels)@[idx as int].quantity == old(levels)@[idx as int].quantity + delta
            && final(levels)@[idx as int].timestamp == timestamp,
{
    let mut spins: u32 = 1;
    let mut attempt: usize = 0;
    while attempt < MAX_RETRIES
        invariant
            attempt <= MAX_RETRIES,
            attempt <= failed_swaps,
            attempt > 0 ==> i64::MIN <= old(levels)@[idx as int].quantity + delta <= i64::MAX,
            idx < levels@.len(),
            levels@ == old(levels)@,
        decreases MAX_RETRIES - attempt,
    {
        let current: i64 = levels[idx].quantity;
        let new_qty: i64 = match current.checked_add(delta) {
            Some(q) => q,
            None => {
                return Err(OrderBookError::QuantityOverflow);
            },
        };
        let fails = attempt < failed_swaps as usize;
        let ghost before = levels@;
        match levels[idx].compare_exchange_weak(current, new_qty, fails) {
            Ok(_) => {
                levels[idx].timestamp = timestamp;
                return Ok(new_qty);
            },
            Err(_) => {
                proof {
                    assert(levels@ =~= before);
                }
                pause(spins);
                spins = next_spins(spins);
            },
        }
        attempt += 1;
    }
    Err(OrderBookError::Timeout)
}

/// The book.
pub struct OrderBook {
    bids: Vec<PriceLevel>,
    asks: Vec<PriceLevel>,
    best_bid: i64,
    best_ask: i64,
}

impl View for OrderBook {
    type V = BookState;

    closed spec fn view(&self) -> BookState {
        BookState {
            bid_qty: Seq::new(self.bids@.len(), |i: int| self.bids@[i].quantity),
            bid_ts: Seq::new(self.bids@.len(), |i: int| self.bids@[i].timestamp),
            ask_qty: Seq::new(self.asks@.len(), |i: int| self.asks@[i].quantity),
            ask_ts: Seq::new(self.asks@.len(), |i: int| self.asks@[i].timestamp),
            best_bid: self.best_bid,
            best_ask: self.best_ask,
        }
    }
}

impl OrderBook {
    /// Each side has 1024 levels, and the best bid is never negative.
    pub closed spec fn wf(&self) -> bool {
        self.bids@.len() == 1024 && self.asks@.len() == 1024 && self.best_bid >= 0
    }

    /// A well-formed book has a well-formed state.
    pub proof fn lemma_wf_view(&self)
        requires
            self.wf(),
        ensures
            self@.wf(),
    {
    }

    /// An empty book.
    pub fn new() -> (book: OrderBook)
        ensures
            book.wf(),
            book@ == empty_book(),
    {
        let mut bids: Vec<PriceLevel> = Vec::new();
        let mut asks: Vec<PriceLevel> = Vec::new();
        let mut i: usize = 0;
        while i < LEVELS
            invariant
                i <= LEVELS,
                bids@.len() == i,
                asks@.len() == i,
                forall|j: int| 0 <= j < i ==> bids@[j].quantity == 0 && bids@[j].timestamp == 0,
                forall|j: int| 0 <= j < i ==> asks@[j].quantity == 0 && asks@[j].timestamp == 0,
            decreases LEVELS - i,
        {
            bids.push(PriceLevel::new());
            asks.push(PriceLevel::new());
            i += 1;
        }
        let book = OrderBook { bids, asks, best_bid: NO_BID, best_ask: NO_ASK };
        proof {
            assert(book@.bid_qty =~= empty_book().bid_qty);
            assert(book@.bid_ts =~= empty_book().bid_ts);
            assert(book@.ask_qty =~= empty_book().ask_qty);
            assert(book@.ask_ts =~= empty_book().ask_ts);
        }
        book
    }

    /// The level a price falls on.
    pub fn level_index(price: i64) -> (idx: usize)
        ensures
            idx == level_of(price),
            idx < 1024,
    {
        let shifted: i64 = price >> TICK_SHIFT;
        let masked: u64 = (shifted as u64) & 1023;
        proof {
            assert(((price >> 4) as u64) & 1023 < 1024) by (bit_vector);
            assert((((price >> 4) as u64) & 1023) as int == (price as int / 16) % 1024)
                by (bit_vector);
        }
        masked as usize
    }

    /// Adds `delta` to the bid level of `price`, stamps the level, and
    /// refreshes the best bid. Fails, leaving the book as it was, when the
    /// level would leave the signed 64-bit range.
    pub fn update_bid(&mut self, price: i64, delta: i64, timestamp: u64) -> (r: Result<
        (),
        OrderBookError,
    >)
        requires
            old(self).wf(),
        ensures
            final(self).wf(),
            old(self)@.fits((BookUpdate { is_bid: true, price, delta, timestamp })) ==> r == Ok::<
                (),
                OrderBookError,
            >(()) && final(self)@ == old(self)@.applied(
                (BookUpdate { is_bid: true, price, delta, timestamp }),
            ),
            !old(self)@.fits((BookUpdate { is_bid: true, price, delta, timestamp })) ==> r == Err::<
                (),
                OrderBookError,
            >(OrderBookError::QuantityOverflow) && final(self)@ == old(self)@,
    {
        self.update_bid_contended(price, delta, timestamp, 0)
    }

    /// `update_bid` when the first `failed_swaps` compare-and-swaps fail:
    /// with fewer than 100 failures the update goes through as it would
    /// have without them; with 100 or more it times out and the book stays
    /// as it was.
    pub fn update_bid_contended(
        &mut self,
        price: i64,
        delta: i64,
        timestamp: u64,
        failed_swaps: u32,
    ) -> (r: Result<(), OrderBookError>)
        requires
            old(self).wf(),
        ensures
            final(self).wf(),
            r == update_result(
                old(self)@,
                (BookUpdate { is_bid: true, price, delta, timestamp }),
                failed_swaps,
            ),
            final(self)@ == updated(
                old(self)@,
                (BookUpdate { is_bid: true, price, delta, timestamp }),
                failed_swaps,
            ),
    {
        let idx = Self::level_index(price);
        match add_to_level(&mut self.bids, idx, delta, timestamp, failed_swaps) {
            Ok(new_qty) => {
                self.update_best_bid(price, new_qty);
                proof {
                    let u = BookUpdate { is_bid: true, price, delta, timestamp };
                    assert(self@.bid_qty =~= old(self)@.applied(u).bid_qty);
                    assert(self@.bid_ts =~= old(self)@.applied(u).bid_ts);
                    assert(self@.ask_qty =~= old(self)@.ask_qty);
                    assert(self@.ask_ts =~= old(self)@.ask_ts);
                }
                Ok(())
            },
            Err(e) => {
                proof {
                    assert(self.bids@ =~= old(self).bids@);
                }
                Err(e)
            },
        }
    }

    /// Adds `delta` to the ask level of `price`, stamps the level, and
    /// refreshes the best ask. Fails, leaving the book as it was, when the
    /// level would leave the signed 64-bit range.
    pub fn update_ask(&mut self, price: i64, delta: i64, timestamp: u64) -> (r: Result<
        (),
        OrderBookError,
    >)
        requires
            old(self).wf(),
        ensures
            final(self).wf(),
            old(self)@.fits((BookUpdate { is_bid: false, price, delta, timestamp })) ==> r == Ok::<
                (),
                OrderBookError,
            >(()) && final(self)@ == old(self)@.applied(
                (BookUpdate { is_bid: false, price, delta, timestamp }),
            ),
            !old(self)@.fits((BookUpdate { is_bid: false, price, delta, timestamp })) ==> r
                == Err::<(), OrderBookError>(OrderBookError::QuantityOverflow) && final(self)@
                == old(self)@,
    {
        self.update_ask_contended(price, delta, timestamp, 0)
    }

    /// `update_ask` when the first `failed_swaps` compare-and-swaps fail:
    /// with fewer than 100 failures the update goes through as it would
    /// have without them; with 100 or more it times out and the book stays
    /// as it was.
    pub fn update_ask_contended(
        &mut self,
        price: i64,
        delta: i64,
        timestamp: u64,
        failed_swaps: u32,
    ) -> (r: Result<(), OrderBookError>)
        requires
            old(self).wf(),
        ensures
            final(self).wf(),
            r == update_result(
                old(self)@,
                (BookUpdate { is_bid: false, price, delta, timestamp }),
                failed_swaps,
            ),
            final(self)@ == updated(
                old(self)@,
                (BookUpdate { is_bid: false, price, delta, timestamp }),
                failed_swaps,
            ),
    {
        let idx = Self::level_index(price);
        match add_to_level(&mut self.asks, idx, delta, timestamp, failed_swaps) {
            Ok(new_qty) => {
                self.update_best_ask(price, new_qty);
                proof {
                    let u = BookUpdate { is_bid: false, price, delta, timestamp };
                    assert(self@.ask_qty =~= old(self)@.applied(u).ask_qty);
                    assert(self@.ask_ts =~= old(self)@.applied(u).ask_ts);
                    assert(self@.bid_qty =~= old(self)@.bid_qty);
                    assert(self@.bid_ts =~= old(self)@.bid_ts);
                }
                Ok(())
            },
            Err(e) => {
                proof {
                    assert(self.asks@ =~= old(self).asks@);
                }
                Err(e)
            },
        }
    }

    /// Refreshes the best bid after the level of `price` reached `new_qty`.
    fn update_best_bid(&mut self, price: i64, new_qty: i64)
        ensures
            final(self).best_bid == best_bid_after(old(self).best_bid, price, new_qty),
            final(self).best_ask == old(self).best_ask,
            final(self).bids == old(self).bids,
            final(self).asks == old(self).asks,
    {
        if new_qty > 0 {
            if price > self.best_bid {
                self.best_bid = price;
            }
        } else if price == self.best_bid {
            self.best_bid = NO_BID;
        }
    }

    /// Refreshes the best ask after the level of `price` reached `new_qty`.
    fn update_best_ask(&mut self, price: i64, new_qty: i64)
        ensures
            final(self).best_ask == best_ask_after(old(self).best_ask, price, new_qty),
            final(self).best_bid == old(self).best_bid,
            final(self).bids == old(self).bids,
            final(self).asks == old(self).asks,
    {
        if new_qty > 0 {
            if price < self.best_ask {
                self.best_ask = price;
            }
        } else if price == self.best_ask {
            self.best_ask = NO_ASK;
        }
    }

    /// The best bid price, or `NO_BID`.
    pub fn best_bid(&self) -> (p: i64)
        ensures
            p == self@.best_bid,
    {
        self.best_bid
    }

    /// The best ask price, or `NO_ASK`.
    pub fn best_ask(&self) -> (p: i64)
        ensures
            p == self@.best_ask,
    {
        self.best_ask
    }

    /// The net quantity of the bid level of `price`.
    pub fn bid_quantity(&self, price: i64) -> (q: i64)
        requires
            self.wf(),
        ensures
            q == self@.bid_qty[level_of(price)],
    {
        let idx = Self::level_index(price);
        self.bids[idx].quantity
    }

    /// The net quantity of the ask level of `price`.
    pub fn ask_quantity(&self, price: i64) -> (q: i64)
        requires
            self.wf(),
        ensures
            q == self@.ask_qty[level_of(price)],
    {
        let idx = Self::level_index(price);
        self.asks[idx].quantity
    }

    /// The spread, where the difference fits 64 bits.
    pub fn spread(&self) -> (s: i64)
        requires
            self.wf(),
            i64::MIN <= self@.spread(),
        ensures
            s == self@.spread(),
    {
        let bid = self.best_bid();
        let ask = self.best_ask();
        if ask == NO_ASK || bid == NO_BID {
            return 0;
        }
        ask - bid
    }
}

impl Default for OrderBook {
    fn default() -> (book: OrderBook)
        ensures
            book.wf(),
            book@ == empty_book(),
    {
        OrderBook::new()
    }
}

/// The book after one offered update: applied when it fits, else unchanged.
pub open spec fn offered(s: BookState, u: BookUpdate) -> BookState {
    if s.fits(u) {
        s.applied(u)
    } else {
        s
    }
}

/// The book after the updates `us`, offered in order to an empty book.
pub open spec fn replay(us: Seq<BookUpdate>) -> BookState
    decreases us.len(),
{
    if us.len() == 0 {
        empty_book()
    } else {
        offered(replay(us.drop_last()), us.last())
    }
}

/// Every update of `us` was applied when its turn came.
pub open spec fn all_applied(us: Seq<BookUpdate>) -> bool
    decreases us.len(),
{
    us.len() == 0 || (all_applied(us.drop_last()) && replay(us.drop_last()).fits(us.last()))
}

/// The sum of the deltas of the updates in `us` on one side whose price
/// falls on `level`.
pub open spec fn level_sum(us: Seq<BookUpdate>, is_bid: bool, level: int) -> int
    decreases us.len(),
{
    if us.len() == 0 {
        0
    } else {
        level_sum(us.drop_last(), is_bid, level) + if us.last().is_bid == is_bid && level_of(
            us.last().price,
        ) == level {
            us.last().delta as int
        } else {
            0
        }
    }
}

/// No bid in `us` is priced above an ask in `us`.
pub open spec fn uncrossed(us: Seq<BookUpdate>) -> bool {
    forall|i: int, j: int|
        0 <= i < us.len() && 0 <= j < us.len() && us[i].is_bid && !us[j].is_bid ==> us[i].price
            <= us[j].price
}

/// Replaying any updates gives a well-formed book.
pub proof fn lemma_replay_wf(us: Seq<BookUpdate>)
    ensures
        replay(us).wf(),
    decreases us.len(),
{
    if us.len() > 0 {
        lemma_replay_wf(us.drop_last());
    }
}

/// After any sequence of applied updates, the quantity of each level is the
/// sum of the deltas whose price falls on it.
pub proof fn lemma_level_is_sum(us: Seq<BookUpdate>, level: int)
    requires
        all_applied(us),
        0 <= level < 1024,
    ensures
        replay(us).bid_qty[level] == level_sum(us, true, level),
        replay(us).ask_qty[level] == level_sum(us, false, level),
    decreases us.len(),
{
    if us.len() > 0 {
        lemma_level_is_sum(us.drop_last(), level);
        lemma_replay_wf(us.drop_last());
    }
}

/// A best price that is set is the price of some update on its side.
proof fn lemma_best_is_offered(us: Seq<BookUpdate>)
    ensures
        replay(us).best_bid == NO_BID || exists|i: int|
            0 <= i < us.len() && us[i].is_bid && us[i].price == replay(us).best_bid,
        replay(us).best_ask == NO_ASK || exists|j: int|
            0 <= j < us.len() && !us[j].is_bid && us[j].price == replay(us).best_ask,
    decreases us.len(),
{
    if us.len() > 0 {
        let before = us.drop_last();
        let last = us.last();
        lemma_best_is_offered(before);
        let p = replay(before);
        let s = replay(us);
        if s.best_bid != NO_BID {
            if s.best_bid == p.best_bid {
                let i = choose|i: int|
                    0 <= i < before.len() && before[i].is_bid && before[i].price == p.best_bid;
                assert(us[i] == before[i]);
            } else {
                assert(us[us.len() - 1] == last);
            }
        }
        if s.best_ask != NO_ASK {
            if s.best_ask == p.best_ask {
                let j = choose|j: int|
                    0 <= j < before.len() && !before[j].is_bid && before[j].price == p.best_ask;
                assert(us[j] == before[j]);
            } else {
                assert(us[us.len() - 1] == last);
            }
        }
    }
}

/// While no bid was offered above an ask, a book with a best price on both
/// sides has its best bid at or below its best ask.
pub proof fn lemma_spread_not_negative(us: Seq<BookUpdate>)
    requires
        uncrossed(us),
    ensures
        replay(us).best_bid != NO_BID && replay(us).best_ask != NO_ASK ==> replay(us).best_bid
            <= replay(us).best_ask,
        replay(us).spread() >= 0,
{
    lemma_best_is_offered(us);
}

} // verus!
