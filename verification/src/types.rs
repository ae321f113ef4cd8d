//! Fixed-layout event and bundle records.
//!
//! An event occupies 32 bytes on the wire, little-endian: id at 0..8, price at
//! 8..16, size at 16..20, side at 20, three zero bytes, timestamp at 24..32.

use crate::errors::{BundleError, TransactionError};
use vstd::prelude::*;

verus! {

/// Number of event slots in a bundle.
pub const BUNDLE_MAX: usize = 16;

/// One order event. `price` is fixed-point, scaled by 10 000.
#[derive(Debug, Clone, Copy, PartialEq, Eq, Structural)]
pub struct Transaction {
    pub id: u64,
    pub price: i64,
    pub size: u32,
    /// 0 = bid, 1 = ask.
    pub side: u8,
    pub ingress_ts_ns: u64,
}

/// Byte `k` (0 = least significant) of a 64-bit word.
pub open spec fn byte_of(x: u64, k: u64) -> u8 {
    ((x >> (8 * k)) & 0xff) as u8
}

/// The 64-bit word whose little-endian bytes are `s[at..at + 8]`.
pub open spec fn word_at(s: Seq<u8>, at: int) -> u64 {
    (s[at] as u64) | (s[at + 1] as u64) << 8 | (s[at + 2] as u64) << 16 | (s[at + 3] as u64) << 24
        | (s[at + 4] as u64) << 32 | (s[at + 5] as u64) << 40 | (s[at + 6] as u64) << 48 | (s[at
        + 7] as u64) << 56
}

/// The 32-bit word whose little-endian bytes are `s[at..at + 4]`.
pub open spec fn half_at(s: Seq<u8>, at: int) -> u32 {
    (s[at] as u32) | (s[at + 1] as u32) << 8 | (s[at + 2] as u32) << 16 | (s[at + 3] as u32) << 24
}

/// The wire image of an event.
pub open spec fn encode(t: Transaction) -> Seq<u8> {
    Seq::new(
        32,
        |i: int|
            if i < 8 {
                byte_of(t.id, i as u64)
            } else if i < 16 {
                byte_of(t.price as u64, (i - 8) as u64)
            } else if i < 20 {
                byte_of(t.size as u64, (i - 16) as u64)
            } else if i == 20 {
                t.side
            } else if i < 24 {
                0u8
            } else {
                byte_of(t.ingress_ts_ns, (i - 24) as u64)
            },
    )
}

/// The event that a 32-byte wire image stands for.
pub open spec fn decode(s: Seq<u8>) -> Transaction {
    Transaction {
        id: word_at(s, 0),
        price: word_at(s, 8) as i64,
        size: half_at(s, 16),
        side: s[20],
        ingress_ts_ns: word_at(s, 24),
    }
}

proof fn lemma_word_roundtrip(x: u64)
    ensures
        (byte_of(x, 0) as u64) | (byte_of(x, 1) as u64) << 8 | (byte_of(x, 2) as u64) << 16 | (
        byte_of(x, 3) as u64) << 24 | (byte_of(x, 4) as u64) << 32 | (byte_of(x, 5) as u64) << 40
            | (byte_of(x, 6) as u64) << 48 | (byte_of(x, 7) as u64) << 56 == x,
{
    assert((((x >> (8 * 0u64)) & 0xff) as u8 as u64) | (((x >> (8 * 1u64)) & 0xff) as u8 as u64)
        << 8 | (((x >> (8 * 2u64)) & 0xff) as u8 as u64) << 16 | (((x >> (8 * 3u64)) & 0xff) as u8
        as u64) << 24 | (((x >> (8 * 4u64)) & 0xff) as u8 as u64) << 32 | (((x >> (8 * 5u64))
        & 0xff) as u8 as u64) << 40 | (((x >> (8 * 6u64)) & 0xff) as u8 as u64) << 48 | (((x >> (8
        * 7u64)) & 0xff) as u8 as u64) << 56 == x) by (bit_vector);
}

proof fn lemma_half_roundtrip(x: u32)
    ensures
        (byte_of(x as u64, 0) as u32) | (byte_of(x as u64, 1) as u32) << 8 | (byte_of(
            x as u64,
            2,
        ) as u32) << 16 | (byte_of(x as u64, 3) as u32) << 24 == x,
{
    assert(((((x as u64) >> (8 * 0u64)) & 0xff) as u8 as u32) | ((((x as u64) >> (8 * 1u64))
        & 0xff) as u8 as u32) << 8 | ((((x as u64) >> (8 * 2u64)) & 0xff) as u8 as u32) << 16 | ((((
    x as u64) >> (8 * 3u64)) & 0xff) as u8 as u32) << 24 == x) by (bit_vector);
}

/// Decoding the wire image of any event gives that event back.
pub proof fn lemma_decode_encode(t: Transaction)
    ensures
        decode(encode(t)) == t,
{
    lemma_word_roundtrip(t.id);
    lemma_word_roundtrip(t.price as u64);
    lemma_word_roundtrip(t.ingress_ts_ns);
    lemma_half_roundtrip(t.size);
    let s = encode(t);
    assert(word_at(s, 0) == t.id);
    assert(word_at(s, 8) == t.price as u64);
    assert(word_at(s, 24) == t.ingress_ts_ns);
    assert(half_at(s, 16) == t.size);
    let p: i64 = t.price;
    assert((p as u64) as i64 == p) by (bit_vector);
}

fn put_word(out: &mut [u8; 32], at: usize, x: u64)
    requires
        at + 8 <= 32,
    ensures
        forall|i: int| 0 <= i < 32 && !(at <= i < at + 8) ==> final(out)@[i] == old(out)@[i],
        forall|i: int| at <= i < at + 8 ==> final(out)@[i] == byte_of(x, (i - at) as u64),
{
    let mut k: usize = 0;
    while k < 8
        invariant
            k <= 8,
            at + 8 <= 32,
            forall|i: int| 0 <= i < 32 && !(at <= i < at + k) ==> out@[i] == old(out)@[i],
            forall|i: int| at <= i < at + k ==> out@[i] == byte_of(x, (i - at) as u64),
        decreases 8 - k,
    {
        let shift: u64 = 8 * (k as u64);
        let b: u8 = ((x >> shift) & 0xff) as u8;
        out[at + k] = b;
        k += 1;
    }
}

fn get_word(bytes: &[u8; 32], at: usize) -> (x: u64)
    requires
        at + 8 <= 32,
    ensures
        x == word_at(bytes@, at as int),
{
    (bytes[at] as u64) | (bytes[at + 1] as u64) << 8 | (bytes[at + 2] as u64) << 16 | (bytes[at
        + 3] as u64) << 24 | (bytes[at + 4] as u64) << 32 | (bytes[at + 5] as u64) << 40 | (bytes[at
        + 6] as u64) << 48 | (bytes[at + 7] as u64) << 56
}

impl Transaction {
    /// The three conditions a validated event meets.
    pub open spec fn is_valid(self) -> bool {
        self.side <= 1 && self.price > 0 && self.size > 0
    }

    /// Builds an event, rejecting a side above 1, then a price that is not
    /// positive, then a zero size.
    pub fn new(id: u64, price: i64, size: u32, side: u8, ingress_ts_ns: u64) -> (r: Result<
        Transaction,
        TransactionError,
    >)
        ensures
            side > 1 ==> r == Err::<Transaction, TransactionError>(
                TransactionError::InvalidSide(side),
            ),
            side <= 1 && price <= 0 ==> r == Err::<Transaction, TransactionError>(
                TransactionError::NegativePrice(price),
            ),
            side <= 1 && price > 0 && size == 0 ==> r == Err::<Transaction, TransactionError>(
                TransactionError::ZeroSize,
            ),
            side <= 1 && price > 0 && size > 0 ==> r == Ok::<Transaction, TransactionError>(
                (Transaction { id, price, size, side, ingress_ts_ns }),
            ),
    {
        if side > 1 {
            return Err(TransactionError::InvalidSide(side));
        }
        if price <= 0 {
            return Err(TransactionError::NegativePrice(price));
        }
        if size == 0 {
            return Err(TransactionError::ZeroSize);
        }
        Ok(Transaction { id, price, size, side, ingress_ts_ns })
    }

    /// Builds an event from fields the caller already knows to be valid.
    pub fn new_unchecked(id: u64, price: i64, size: u32, side: u8, ingress_ts_ns: u64) -> (t:
        Transaction)
        requires
            side <= 1,
            price > 0,
            size > 0,
        ensures
            t == (Transaction { id, price, size, side, ingress_ts_ns }),
            t.is_valid(),
    {
        Transaction { id, price, size, side, ingress_ts_ns }
    }

    /// Serializes the event to its 32-byte wire image.
    pub fn to_bytes(&self) -> (bytes: [u8; 32])
        ensures
            bytes@ == encode(*self),
    {
        let mut out: [u8; 32] = [0u8; 32];
        put_word(&mut out, 0, self.id);
        put_word(&mut out, 8, self.price as u64);
        put_word(&mut out, 16, self.size as u64);
        out[20] = self.side;
        out[21] = 0u8;
        out[22] = 0u8;
        out[23] = 0u8;
        put_word(&mut out, 24, self.ingress_ts_ns);
        proof {
            let x: u64 = self.size as u64;
            assert(x <= 0xffff_ffff);
            assert(((x >> (8 * 4u64)) & 0xff) as u8 == 0u8 && ((x >> (8 * 5u64)) & 0xff) as u8
                == 0u8 && ((x >> (8 * 6u64)) & 0xff) as u8 == 0u8 && ((x >> (8 * 7u64))
                & 0xff) as u8 == 0u8) by (bit_vector)
                requires
                    x <= 0xffff_ffff,
            ;
            assert(out@ =~= encode(*self));
        }
        out
    }

    /// Reads an event back from a 32-byte wire image. No field is validated.
    pub fn from_bytes(bytes: &[u8; 32]) -> (t: Transaction)
        ensures
            t == decode(bytes@),
    {
        let id: u64 = get_word(bytes, 0);
        let price: u64 = get_word(bytes, 8);
        let size: u32 = (bytes[16] as u32) | (bytes[17] as u32) << 8 | (bytes[18] as u32) << 16 | (
        bytes[19] as u32) << 24;
        let ts: u64 = get_word(bytes, 24);
        Transaction { id, price: price as i64, size, side: bytes[20], ingress_ts_ns: ts }
    }

    /// True for a bid.
    pub fn is_bid(&self) -> (b: bool)
        ensures
            b == (self.side == 0),
    {
        self.side == 0
    }

    /// True for an ask.
    pub fn is_ask(&self) -> (b: bool)
        ensures
            b == (self.side == 1),
    {
        self.side == 1
    }
}

/// A batch of up to 16 events. The first `count` slots are the payload; the
/// slots after them hold filler that is never read.
#[derive(Debug, Clone, Copy, PartialEq)]
pub struct Bundle {
    pub transactions: [Transaction; 16],
    pub count: u32,
    /// When the batch was opened, in nanoseconds.
    pub timestamp_ns: u64,
}

/// The event that fills unused slots.
pub open spec fn filler() -> Transaction {
    Transaction { id: 0, price: 1, size: 1, side: 0, ingress_ts_ns: 0 }
}

impl Bundle {
    /// The count does not exceed the capacity.
    pub open spec fn wf(self) -> bool {
        self.count <= 16
    }

    /// The payload: the first `count` events, in order.
    pub open spec fn payload(self) -> Seq<Transaction> {
        self.transactions@.subrange(0, self.count as int)
    }

    /// An empty bundle: count 0, timestamp 0, every slot holding the filler.
    pub fn new() -> (b: Bundle)
        ensures
            b.wf(),
            b.count == 0,
            b.timestamp_ns == 0,
            forall|i: int| 0 <= i < 16 ==> b.transactions@[i] == filler(),
    {
        let fill = Transaction::new_unchecked(0, 1, 1, 0, 0);
        Bundle { transactions: [fill; 16], count: 0, timestamp_ns: 0 }
    }

    /// Builds a bundle from 16 slots and a count, rejecting a count above 16.
    pub fn with_transactions(transactions: [Transaction; 16], count: u32, timestamp_ns: u64) -> (r:
        Result<Bundle, BundleError>)
        ensures
            count > 16 ==> r == Err::<Bundle, BundleError>(
                (BundleError::CountTooLarge { count, max: 16 }),
            ),
            count <= 16 ==> r == Ok::<Bundle, BundleError>(
                (Bundle { transactions, count, timestamp_ns }),
            ),
    {
        if count > 16 {
            return Err(BundleError::CountTooLarge { count, max: BUNDLE_MAX });
        }
        Ok(Bundle { transactions, count, timestamp_ns })
    }

    /// Builds a bundle from a count the caller already knows to fit.
    pub fn with_transactions_unchecked(
        transactions: [Transaction; 16],
        count: u32,
        timestamp_ns: u64,
    ) -> (b: Bundle)
        requires
            count <= 16,
        ensures
            b == (Bundle { transactions, count, timestamp_ns }),
            b.wf(),
    {
        Bundle { transactions, count, timestamp_ns }
    }

    /// The payload as a slice.
    pub fn active_transactions(&self) -> (s: &[Transaction])
        requires
            self.wf(),
        ensures
            s@ == self.payload(),
    {
        let n: usize = self.count as usize;
        vstd::slice::slice_subrange(self.transactions.as_slice(), 0, n)
    }

    /// True when the count is 0.
    pub fn is_empty(&self) -> (b: bool)
        ensures
            b == (self.count == 0),
    {
        self.count == 0
    }

    /// True when the count has reached the capacity.
    pub fn is_full(&self) -> (b: bool)
        ensures
            b == (self.count >= 16),
    {
        self.count >= 16
    }
}

impl Default for Bundle {
    fn default() -> (b: Bundle)
        ensures
            b.wf(),
            b.count == 0,
            b.timestamp_ns == 0,
    {
        Bundle::new()
    }
}

} // verus!
