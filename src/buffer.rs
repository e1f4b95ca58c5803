//! A capacity-bounded byte buffer that evicts its oldest bytes first.
use vstd::prelude::*;
use crate::storage::{STORAGE_BYTES, storage_bytes, storage_extend, storage_new, stored};

verus! {

/// The bytes `...[truncated]...\n`, which open a buffer that has lost its oldest bytes.
pub open spec fn marker() -> Seq<u8> {
    seq![46u8, 46, 46, 91, 116, 114, 117, 110, 99, 97, 116, 101, 100, 93, 46, 46, 46, 10]
}

/// The length of the truncation marker.
pub const MARKER_LEN: usize = 18;

/// The last `n` bytes of `s`.
pub open spec fn tail(s: Seq<u8>, n: int) -> Seq<u8> {
    s.subrange(s.len() - n, s.len() as int)
}

/// What a buffer of capacity `cap` holds after `history` was written to it: all of it while it
/// fits, else the marker followed by as many of the most recent bytes as fit beside it.
pub open spec fn window(history: Seq<u8>, cap: nat) -> Seq<u8> {
    if history.len() <= cap {
        history
    } else {
        marker() + tail(history, cap - MARKER_LEN)
    }
}

/// The most recent bytes a buffer of capacity `cap` still holds after `history`, without the
/// marker: all of it while it fits, else the bytes kept beside the marker.
pub open spec fn kept(history: Seq<u8>, cap: nat) -> Seq<u8> {
    if history.len() <= cap {
        history
    } else {
        tail(history, cap - MARKER_LEN)
    }
}

fn marker_bytes() -> (r: Vec<u8>)
    ensures
        r@ == marker(),
{
    vec![46u8, 46, 46, 91, 116, 114, 117, 110, 99, 97, 116, 101, 100, 93, 46, 46, 46, 10]
}

/// A text buffer of fixed capacity. Once more has been written than fits, it holds the
/// truncation marker followed by the most recent bytes.
pub struct BoundedText {
    bytes: heapless::Vec<u8, 2048>,
    capacity: usize,
    truncated: bool,
    history: Ghost<Seq<u8>>,
}

impl BoundedText {
    /// The bytes held now.
    pub closed spec fn contents(&self) -> Seq<u8> {
        stored(self.bytes)
    }

    /// Every byte written since the buffer was made.
    pub closed spec fn history(&self) -> Seq<u8> {
        self.history@
    }

    pub closed spec fn capacity(&self) -> nat {
        self.capacity as nat
    }

    pub closed spec fn truncated(&self) -> bool {
        self.truncated
    }

    /// The buffer holds the window of its history, and has lost bytes exactly when its
    /// history outgrew its capacity.
    pub open spec fn wf(&self) -> bool {
        &&& MARKER_LEN < self.capacity() <= STORAGE_BYTES
        &&& self.contents() == window(self.history(), self.capacity())
        &&& self.truncated() == (self.history().len() > self.capacity())
    }

    /// An empty buffer holding at most `capacity` bytes.
    pub fn new(capacity: usize) -> (r: Self)
        requires
            MARKER_LEN < capacity <= STORAGE_BYTES,
        ensures
            r.wf(),
            r.capacity() == capacity,
            r.history() == Seq::<u8>::empty(),
            r.contents() == Seq::<u8>::empty(),
            !r.truncated(),
    {
        BoundedText { bytes: storage_new(), capacity, truncated: false, history: Ghost(Seq::empty()) }
    }

    /// Writes `chunk` after what was written before, evicting the oldest bytes that no longer fit.
    pub fn append(&mut self, chunk: &[u8])
        requires
            old(self).wf(),
        ensures
            final(self).wf(),
            final(self).capacity() == old(self).capacity(),
            final(self).history() == old(self).history() + chunk@,
            final(self).contents() == window(old(self).history() + chunk@, old(self).capacity()),
    {
        let ghost h = self.history@ + chunk@;
        let ghost cap = self.capacity as nat;
        let ghost keep = cap - MARKER_LEN;
        let held = storage_bytes(&self.bytes).len();
        if chunk.len() <= self.capacity - held {
            let ghost before = stored(self.bytes);
            storage_extend(&mut self.bytes, chunk);
            proof {
                if self.history@.len() > cap {
                    assert(chunk@.len() == 0);
                    assert(h =~= self.history@);
                    assert(stored(self.bytes) =~= before);
                }
            }
            self.history = Ghost(h);
        } else {
            let keep_n: usize = self.capacity - MARKER_LEN;
            let mark = marker_bytes();
            let mut fresh = storage_new();
            storage_extend(&mut fresh, mark.as_slice());
            if chunk.len() >= keep_n {
                let latest = &chunk[chunk.len() - keep_n..chunk.len()];
                storage_extend(&mut fresh, latest);
                proof {
                    assert(tail(h, keep) =~= latest@);
                }
            } else {
                let from_old: usize = keep_n - chunk.len();
                let old_bytes = storage_bytes(&self.bytes);
                let n = old_bytes.len();
                let ghost b = old_bytes@;
                proof {
                    assert(from_old <= n);
                    // The most recent bytes held are the most recent bytes written.
                    assert(tail(b, from_old as int) =~= tail(self.history@, from_old as int));
                }
                let kept = &old_bytes[n - from_old..n];
                storage_extend(&mut fresh, kept);
                storage_extend(&mut fresh, chunk);
                proof {
                    assert(tail(h, keep) =~= tail(self.history@, from_old as int) + chunk@);
                    assert(stored(fresh) =~= marker() + tail(h, keep));
                }
            }
            self.bytes = fresh;
            self.history = Ghost(h);
            self.truncated = true;
        }
    }

    /// The bytes held now.
    pub fn as_bytes(&self) -> (r: &[u8])
        ensures
            r@ == self.contents(),
    {
        storage_bytes(&self.bytes)
    }

    /// The bytes held now, without the marker: the most recent bytes written.
    pub fn recent(&self) -> (r: &[u8])
        requires
            self.wf(),
        ensures
            r@ == kept(self.history(), self.capacity()),
    {
        let all = storage_bytes(&self.bytes);
        if self.truncated {
            let r = &all[MARKER_LEN..all.len()];
            proof {
                assert(r@ =~= kept(self.history(), self.capacity()));
            }
            r
        } else {
            all
        }
    }

    /// Whether the oldest bytes have been evicted.
    pub fn is_truncated(&self) -> (r: bool)
        ensures
            r == self.truncated(),
    {
        self.truncated
    }

    /// The largest number of bytes the buffer holds.
    pub fn capacity_bytes(&self) -> (r: usize)
        ensures
            r == self.capacity(),
    {
        self.capacity
    }

    /// A copy of the bytes held now.
    pub fn to_vec(&self) -> (r: Vec<u8>)
        ensures
            r@ == self.contents(),
    {
        vstd::slice::slice_to_vec(storage_bytes(&self.bytes))
    }
}

/// The buffer never holds more than its capacity.
pub proof fn lemma_window_bounded(history: Seq<u8>, cap: nat)
    requires
        cap > MARKER_LEN,
    ensures
        window(history, cap).len() <= cap,
{
}

/// Once more than the capacity has been written, the buffer opens with the marker and ends
/// with the most recent bytes written, as many as fit beside the marker.
pub proof fn lemma_window_keeps_latest(history: Seq<u8>, cap: nat)
    requires
        cap > MARKER_LEN,
        history.len() > cap,
    ensures
        window(history, cap).len() == cap,
        window(history, cap).subrange(0, MARKER_LEN as int) == marker(),
        window(history, cap).subrange(MARKER_LEN as int, cap as int) == tail(
            history,
            cap - MARKER_LEN,
        ),
{
    let w = window(history, cap);
    assert(w.subrange(0, MARKER_LEN as int) =~= marker());
    assert(w.subrange(MARKER_LEN as int, cap as int) =~= tail(history, cap - MARKER_LEN));
}

/// Whatever was written before, after a chunk is written the buffer ends with that chunk's
/// most recent bytes, as many as fit beside the marker.
pub proof fn lemma_latest_chunk_kept(history: Seq<u8>, chunk: Seq<u8>, cap: nat)
    requires
        cap > MARKER_LEN,
    ensures
        ({
            let w = window(history + chunk, cap);
            let n = if chunk.len() < cap - MARKER_LEN {
                chunk.len() as int
            } else {
                cap - MARKER_LEN
            };
            tail(w, n) == tail(chunk, n)
        }),
{
    let h = history + chunk;
    let w = window(h, cap);
    let n = if chunk.len() < cap - MARKER_LEN {
        chunk.len() as int
    } else {
        cap - MARKER_LEN
    };
    assert(tail(w, n) =~= tail(chunk, n));
}

} // verus!
