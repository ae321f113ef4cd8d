//! A single-process transaction pipeline core: a bounded FIFO queue, a
//! price-aggregated order book, a size-or-timeout bundle accumulator, an
//! adaptive idle backoff and a log-bucket latency histogram.
//!
//! Every structure here is owned exclusively by its caller (`&mut self`), so
//! each contract relates the state before a call to the state after it.

pub mod backoff;
pub mod bundle;
pub mod errors;
pub mod histogram;
pub mod ingress;
pub mod orderbook;
pub mod pipeline;
pub mod ring;
pub mod tsc;
pub mod types;

pub use backoff::{Backoff, Pause};
pub use bundle::{BundleBuilder, BundleFull, BUNDLE_TIMEOUT_NS};
pub use errors::{BundleError, OrderBookError, TransactionError};
pub use histogram::LatencyHistogram;
pub use ingress::{generate_burst, SyntheticStats};
pub use orderbook::OrderBook;
pub use pipeline::{drain_pipeline, Stats};
pub use ring::RingBuffer;
pub use tsc::{
    calibrate_tsc, init_tsc, is_tsc_initialized, ns_to_tsc, rdtsc, tsc_to_ns, TscClock,
};
pub use types::{Bundle, Transaction, BUNDLE_MAX};
