//! The externally visible result record: a status label, byte counters and a bounded log.
use vstd::prelude::*;
use crate::buffer::{BoundedText, MARKER_LEN, window};
use crate::storage::STORAGE_BYTES;
use crate::matcher::accepted;
use crate::text::is_utf8;

verus! {

/// The label a fresh store shows: `Initializing...`.
pub open spec fn initial_status() -> Seq<u8> {
    seq![73u8, 110, 105, 116, 105, 97, 108, 105, 122, 105, 110, 103, 46, 46, 46]
}

/// `n` added to a counter, stopping at the largest value a counter holds.
pub open spec fn saturating_add(c: u64, n: nat) -> u64 {
    if c + n > u64::MAX {
        u64::MAX
    } else {
        (c + n) as u64
    }
}

/// A copy of the result record, independent of the store.
#[derive(Clone, Debug)]
pub struct Snapshot {
    pub status: Vec<u8>,
    pub tx_count: u64,
    pub rx_count: u64,
    pub log: Vec<u8>,
    pub log_truncated: bool,
}

/// The result record the engine publishes.
pub struct ResultStore {
    status: Vec<u8>,
    tx_count: u64,
    rx_count: u64,
    log: BoundedText,
}

impl ResultStore {
    pub closed spec fn status(&self) -> Seq<u8> {
        self.status@
    }

    pub closed spec fn tx(&self) -> u64 {
        self.tx_count
    }

    pub closed spec fn rx(&self) -> u64 {
        self.rx_count
    }

    /// Everything appended to the log since the store was made.
    pub closed spec fn log_history(&self) -> Seq<u8> {
        self.log.history()
    }

    /// What the log holds now.
    pub closed spec fn log(&self) -> Seq<u8> {
        self.log.contents()
    }

    pub closed spec fn log_capacity(&self) -> nat {
        self.log.capacity()
    }

    pub closed spec fn log_truncated(&self) -> bool {
        self.log.truncated()
    }

    /// The status label is never empty, and the log holds the window of what was appended.
    pub open spec fn wf(&self) -> bool {
        &&& self.status().len() > 0
        &&& MARKER_LEN < self.log_capacity() <= STORAGE_BYTES
        &&& self.log() == window(self.log_history(), self.log_capacity())
        &&& self.log_truncated() == (self.log_history().len() > self.log_capacity())
    }

    /// A store whose log holds at most `log_capacity` bytes.
    pub fn new(log_capacity: usize) -> (r: Self)
        requires
            MARKER_LEN < log_capacity <= STORAGE_BYTES,
        ensures
            r.wf(),
            r.status() == initial_status(),
            r.tx() == 0,
            r.rx() == 0,
            r.log_capacity() == log_capacity,
            r.log_history() == Seq::<u8>::empty(),
    {
        let status: Vec<u8> = vec![73u8, 110, 105, 116, 105, 97, 108, 105, 122, 105, 110, 103, 46, 46, 46];
        ResultStore { status, tx_count: 0, rx_count: 0, log: BoundedText::new(log_capacity) }
    }

    /// Replaces the status label; an empty label leaves the old one in place.
    pub fn set_status(&mut self, text: &[u8])
        requires
            old(self).wf(),
        ensures
            final(self).wf(),
            final(self).status() == (if text@.len() == 0 {
                old(self).status()
            } else {
                text@
            }),
            final(self).tx() == old(self).tx(),
            final(self).rx() == old(self).rx(),
            final(self).log_history() == old(self).log_history(),
            final(self).log_capacity() == old(self).log_capacity(),
    {
        if text.len() > 0 {
            self.status = vstd::slice::slice_to_vec(text);
        }
    }

    /// Appends `text` to the log, evicting its oldest bytes once it is full.
    pub fn append_log(&mut self, text: &[u8])
        requires
            old(self).wf(),
        ensures
            final(self).wf(),
            final(self).log_history() == old(self).log_history() + text@,
            final(self).log() == window(old(self).log_history() + text@, old(self).log_capacity()),
            final(self).status() == old(self).status(),
            final(self).tx() == old(self).tx(),
            final(self).rx() == old(self).rx(),
            final(self).log_capacity() == old(self).log_capacity(),
    {
        self.log.append(text);
    }

    /// Counts `n` bytes written to the modem.
    pub fn count_sent(&mut self, n: usize)
        requires
            old(self).wf(),
        ensures
            final(self).wf(),
            final(self).tx() == saturating_add(old(self).tx(), n as nat),
            final(self).rx() == old(self).rx(),
            final(self).status() == old(self).status(),
            final(self).log_history() == old(self).log_history(),
            final(self).log_capacity() == old(self).log_capacity(),
    {
        self.tx_count = self.tx_count.saturating_add(n as u64);
    }

    /// Counts a chunk read from the modem and mirrors it into the log; a chunk that is not
    /// UTF-8 is counted but not logged.
    pub fn record_received(&mut self, chunk: &[u8])
        requires
            old(self).wf(),
        ensures
            final(self).wf(),
            final(self).rx() == saturating_add(old(self).rx(), chunk@.len()),
            final(self).log_history() == old(self).log_history() + accepted(chunk@),
            final(self).tx() == old(self).tx(),
            final(self).status() == old(self).status(),
            final(self).log_capacity() == old(self).log_capacity(),
    {
        self.rx_count = self.rx_count.saturating_add(chunk.len() as u64);
        if is_utf8(chunk) {
            self.log.append(chunk);
        } else {
            proof {
                assert(old(self).log_history() + accepted(chunk@) =~= old(self).log_history());
            }
        }
    }

    /// An independent copy of the record.
    pub fn snapshot(&self) -> (r: Snapshot)
        ensures
            r.status@ == self.status(),
            r.tx_count == self.tx(),
            r.rx_count == self.rx(),
            r.log@ == self.log(),
            r.log_truncated == self.log_truncated(),
    {
        Snapshot {
            status: vstd::slice::slice_to_vec(self.status.as_slice()),
            tx_count: self.tx_count,
            rx_count: self.rx_count,
            log: self.log.to_vec(),
            log_truncated: self.log.is_truncated(),
        }
    }
}

/// However much is appended, the log holds at most its capacity; once more than that was
/// appended it opens with the truncation marker and keeps the most recent bytes.
pub proof fn lemma_log_keeps_latest(store: ResultStore, text: Seq<u8>)
    requires
        store.wf(),
    ensures
        window(store.log_history() + text, store.log_capacity()).len() <= store.log_capacity(),
        (store.log_history() + text).len() > store.log_capacity() ==> window(
            store.log_history() + text,
            store.log_capacity(),
        ) == crate::buffer::marker() + crate::buffer::tail(
            store.log_history() + text,
            store.log_capacity() - MARKER_LEN,
        ),
{
}

} // verus!
