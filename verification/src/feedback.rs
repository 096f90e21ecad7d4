//! Progress reporting from the copy engine to an external observer.
//!
//! Two sinks exist: one that discards everything, and one that forwards
//! updates into an unbounded channel while deduplicating small `Copied`
//! updates so that roughly one event per `block_size` bytes reaches the
//! observer.

use vstd::prelude::*;
use vstd::arithmetic::div_mod::{
    lemma_div_is_ordered, lemma_div_plus_one, lemma_fundamental_div_mod,
    lemma_hoist_over_denominator, lemma_mod_division_less_than_divisor,
};
use core::sync::atomic::{AtomicU64, Ordering};
use crossbeam_channel as cbc;
use crate::config::Config;
use crate::errors::Error;

verus! {

/// A message from the copy engine to the observer.
pub enum StatusUpdate {
    /// So many further bytes were written successfully.
    Copied(u64),
    /// So many further bytes are going to be copied.
    Size(u64),
    /// A surfaced error.
    Error(Error),
}

/// A thread-safe sink for status updates.
pub trait StatusUpdater: Sync + Send {
    fn send(&self, update: StatusUpdate) -> Result<(), Error>;
}

/// A sink that discards every update.
pub struct NoopUpdater;

impl StatusUpdater for NoopUpdater {
    /// The null sink accepts everything and does nothing.
    fn send(&self, update: StatusUpdate) -> (r: Result<(), Error>)
        ensures
            r is Ok,
    {
        Ok(())
    }
}

/// Whether adding `bytes` to a running total of `prev` crosses a multiple
/// of `block`: only then is a `Copied` update worth forwarding. A `block`
/// of zero never throttles.
pub open spec fn forward_decision(prev: int, bytes: int, block: int) -> bool {
    block <= 0 || (prev + bytes) / block > prev / block
}

/// The deduplication decision on concrete counter values.
pub fn should_forward(prev: u64, bytes: u64, block: u64) -> (r: bool)
    ensures
        r == forward_decision(prev as int, bytes as int, block as int),
{
    if block == 0 {
        true
    } else {
        let total = prev as u128 + bytes as u128;
        total / (block as u128) > (prev as u128) / (block as u128)
    }
}

/// Whether the buffering sink forwards an update when the shared counter
/// stood at `prev`: a `Copied` update only on a boundary crossing, every
/// other update unconditionally.
pub open spec fn update_forwarded(update: StatusUpdate, prev: int, block: int) -> bool {
    match update {
        StatusUpdate::Copied(bytes) => forward_decision(prev, bytes as int, block),
        StatusUpdate::Size(sz) => true,
        StatusUpdate::Error(e) => true,
    }
}

/// The forwarding decision on one concrete update.
pub fn update_forward(update: &StatusUpdate, prev: u64, block: u64) -> (r: bool)
    ensures
        r == update_forwarded(*update, prev as int, block as int),
{
    match update {
        StatusUpdate::Copied(bytes) => should_forward(prev, *bytes, block),
        _ => true,
    }
}

/// The total of a sequence of byte counts.
pub open spec fn sum_chunks(s: Seq<u64>) -> int
    decreases s.len(),
{
    if s.len() == 0 {
        0
    } else {
        s[0] + sum_chunks(s.skip(1))
    }
}

/// How many `Copied` updates the deduplicating sink forwards when the
/// chunks of `s` arrive in order against a counter that starts at `start`.
pub open spec fn forwarded_count(s: Seq<u64>, start: int, block: int) -> int
    decreases s.len(),
{
    if s.len() == 0 {
        0
    } else {
        (if forward_decision(start, s[0] as int, block) {
            1int
        } else {
            0int
        }) + forwarded_count(s.skip(1), start + s[0], block)
    }
}

/// A single chunk no larger than `block` crosses at most one multiple of
/// `block`, and it does so exactly when the forward decision says so.
proof fn lemma_crossing_step(prev: int, c: int, block: int)
    requires
        block >= 1,
        prev >= 0,
        0 <= c <= block,
    ensures
        (prev + c) / block - prev / block == if forward_decision(prev, c, block) {
            1int
        } else {
            0int
        },
{
    lemma_div_is_ordered(prev, prev + c, block);
    lemma_div_is_ordered(prev + c, prev + block, block);
    lemma_div_plus_one(prev, block);
}

proof fn lemma_forwarded_count_total(s: Seq<u64>, start: int, block: int)
    requires
        block >= 1,
        start >= 0,
        forall|i: int| 0 <= i < s.len() ==> s[i] <= block,
    ensures
        forwarded_count(s, start, block) == (start + sum_chunks(s)) / block - start / block,
    decreases s.len(),
{
    if s.len() > 0 {
        lemma_crossing_step(start, s[0] as int, block);
        assert(forall|i: int| 0 <= i < s.skip(1).len() ==> s.skip(1)[i] == s[i + 1]);
        lemma_forwarded_count_total(s.skip(1), start + s[0], block);
    }
}

/// With every chunk at most `block` bytes, the deduplicating sink forwards
/// at least `⌊n / block⌋` and at most `⌊n / block⌋ + 1` `Copied` updates
/// for a stream of chunks totalling `n` bytes, wherever the shared counter
/// stood when the stream began.
pub proof fn lemma_copied_event_bounds(s: Seq<u64>, start: u64, block: u64)
    requires
        block >= 1,
        forall|i: int| 0 <= i < s.len() ==> s[i] <= block,
    ensures
        sum_chunks(s) / (block as int) <= forwarded_count(s, start as int, block as int),
        forwarded_count(s, start as int, block as int) <= sum_chunks(s) / (block as int) + 1,
{
    let b = block as int;
    let st = start as int;
    let n = sum_chunks(s);
    lemma_sum_chunks_nonneg(s);
    lemma_forwarded_count_total(s, st, b);
    lemma_fundamental_div_mod(st, b);
    lemma_mod_division_less_than_divisor(st, b);
    let q = st / b;
    let r = st % b;
    lemma_hoist_over_denominator(r + n, q, block as nat);
    assert((st + n) / b == (r + n) / b + q);
    lemma_div_is_ordered(n, r + n, b);
    lemma_div_plus_one(n, b);
    lemma_div_is_ordered(r + n, n + b, b);
}

proof fn lemma_sum_chunks_nonneg(s: Seq<u64>)
    ensures
        sum_chunks(s) >= 0,
    decreases s.len(),
{
    if s.len() > 0 {
        lemma_sum_chunks_nonneg(s.skip(1));
    }
}

#[verifier::external_type_specification]
#[verifier::external_body]
#[verifier::reject_recursive_types(T)]
pub struct ExSender<T>(cbc::Sender<T>);

#[verifier::external_type_specification]
#[verifier::external_body]
#[verifier::reject_recursive_types(T)]
pub struct ExReceiver<T>(cbc::Receiver<T>);

/// Relies on crossbeam_channel::unbounded: returns a connected
/// sender/receiver pair over a queue without capacity bound.
#[verifier::external_body]
fn status_channel() -> (cbc::Sender<StatusUpdate>, cbc::Receiver<StatusUpdate>) {
    cbc::unbounded()
}

/// Relies on crossbeam_channel::Sender::send: on an unbounded channel it
/// enqueues the message and fails only when every receiver is gone, in
/// which case the message is handed back and dropped here.
#[verifier::external_body]
fn status_send(tx: &cbc::Sender<StatusUpdate>, update: StatusUpdate) -> Result<(), ()> {
    match tx.send(update) {
        Ok(()) => Ok(()),
        Err(_) => Err(()),
    }
}

/// Relies on crossbeam_channel::Receiver::clone: returns another handle
/// on the same queue.
#[verifier::external_body]
fn status_rx_clone(rx: &cbc::Receiver<StatusUpdate>) -> cbc::Receiver<StatusUpdate> {
    rx.clone()
}

/// The buffering sink: forwards updates into an unbounded channel, and
/// throttles `Copied` updates through a shared byte counter so that one
/// update is forwarded whenever the counter crosses a `block_size`
/// boundary.
pub struct ChannelUpdater {
    pub chan_tx: cbc::Sender<StatusUpdate>,
    pub chan_rx: cbc::Receiver<StatusUpdate>,
    pub config: Config,
    pub sent: AtomicU64,
}

impl ChannelUpdater {
    pub fn new(config: &Config) -> (r: ChannelUpdater)
        ensures
            r.config == *config,
    {
        let (chan_tx, chan_rx) = status_channel();
        ChannelUpdater { chan_tx, chan_rx, config: *config, sent: AtomicU64::new(0) }
    }

    /// A receive endpoint for the observer; call before handing the
    /// updater itself to the driver.
    pub fn rx_channel(&self) -> cbc::Receiver<StatusUpdate> {
        status_rx_clone(&self.chan_rx)
    }
}

impl StatusUpdater for ChannelUpdater {
    /// Forward an update, dropping `Copied` updates that do not cross a
    /// `block_size` boundary of the running total; the only failure is a
    /// torn-down channel, surfaced as a copy error.
    fn send(&self, update: StatusUpdate) -> (r: Result<(), Error>)
        ensures
            r matches Err(e) ==> e is CopyError,
    {
        let prev: u64 = match &update {
            StatusUpdate::Copied(bytes) => self.sent.fetch_add(*bytes, Ordering::Relaxed),
            _ => 0,
        };
        if update_forward(&update, prev, self.config.block_size) {
            match status_send(&self.chan_tx, update) {
                Ok(()) => Ok(()),
                Err(()) => Err(Error::CopyError("status receiver disconnected".to_owned())),
            }
        } else {
            Ok(())
        }
    }
}

} // verus!
