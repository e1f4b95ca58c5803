//! Sending one command and classifying the modem's reply against its terminal tokens.
use vstd::prelude::*;
use crate::buffer::{BoundedText, MARKER_LEN, kept, tail, window};
use crate::storage::STORAGE_BYTES;
use crate::text::{push_all, contains, find, find_from, first_from, first_occurrence, is_utf8, occurs_at};

verus! {

/// What a chunk contributes to the received text: all of it when it is well-formed UTF-8,
/// nothing otherwise.
pub open spec fn accepted(chunk: Seq<u8>) -> Seq<u8> {
    if vstd::utf8::valid_utf8(chunk) {
        chunk
    } else {
        Seq::empty()
    }
}

/// Assembles received chunks into a bounded text, dropping chunks that are not UTF-8.
pub struct LineAccumulator {
    text: BoundedText,
}

impl LineAccumulator {
    pub closed spec fn contents(&self) -> Seq<u8> {
        self.text.contents()
    }

    /// Every accepted byte since the accumulator was made.
    pub closed spec fn history(&self) -> Seq<u8> {
        self.text.history()
    }

    pub closed spec fn capacity(&self) -> nat {
        self.text.capacity()
    }

    pub closed spec fn truncated(&self) -> bool {
        self.text.truncated()
    }

    pub open spec fn wf(&self) -> bool {
        &&& MARKER_LEN < self.capacity() <= STORAGE_BYTES
        &&& self.contents() == window(self.history(), self.capacity())
        &&& self.truncated() == (self.history().len() > self.capacity())
    }

    pub fn new(capacity: usize) -> (r: Self)
        requires
            MARKER_LEN < capacity <= STORAGE_BYTES,
        ensures
            r.wf(),
            r.capacity() == capacity,
            r.history() == Seq::<u8>::empty(),
    {
        LineAccumulator { text: BoundedText::new(capacity) }
    }

    /// Adds a received chunk; a chunk that is not well-formed UTF-8 is dropped whole.
    pub fn feed(&mut self, chunk: &[u8])
        requires
            old(self).wf(),
        ensures
            final(self).wf(),
            final(self).capacity() == old(self).capacity(),
            final(self).history() == old(self).history() + accepted(chunk@),
    {
        if is_utf8(chunk) {
            self.text.append(chunk);
        } else {
            proof {
                assert(old(self).history() + accepted(chunk@) =~= old(self).history());
            }
        }
    }

    /// The first offset of `token` in the text held.
    pub fn find(&self, token: &[u8]) -> (r: Option<usize>)
        ensures
            r matches Some(p) ==> first_occurrence(self.contents(), token@) == Some(p as int),
            r is None ==> first_occurrence(self.contents(), token@) is None,
    {
        find(self.text.as_bytes(), token)
    }

    /// The text held.
    pub fn contents_bytes(&self) -> (r: &[u8])
        ensures
            r@ == self.contents(),
    {
        self.text.as_bytes()
    }

    pub fn is_truncated(&self) -> (r: bool)
        ensures
            r == self.truncated(),
    {
        self.text.is_truncated()
    }

    pub fn capacity_bytes(&self) -> (r: usize)
        ensures
            r == self.capacity(),
    {
        self.text.capacity_bytes()
    }

    /// The most recent bytes held, without the truncation marker.
    pub fn recent(&self) -> (r: &[u8])
        requires
            self.wf(),
        ensures
            r@ == kept(self.history(), self.capacity()),
    {
        self.text.recent()
    }
}

/// The text a read is searched in: the bytes kept from earlier reads of the phase, without the
/// marker, followed by what the read brought. Nothing is evicted before the search, and the
/// marker is never searched.
pub open spec fn scan(history: Seq<u8>, cap: nat, chunk: Seq<u8>) -> Seq<u8> {
    kept(history, cap) + accepted(chunk)
}

/// The scan text is the end of what was received in the phase: every token found in it was
/// really sent by the modem, and the whole of the read is in it.
pub proof fn lemma_scan_is_received(history: Seq<u8>, cap: nat, chunk: Seq<u8>)
    requires
        cap > MARKER_LEN,
    ensures
        scan(history, cap, chunk) == tail(
            history + accepted(chunk),
            scan(history, cap, chunk).len() as int,
        ),
        scan(history, cap, chunk).len() <= (history + accepted(chunk)).len(),
        forall|t: Seq<u8>, p: int|
            occurs_at(scan(history, cap, chunk), t, p) ==> occurs_at(
                history + accepted(chunk),
                t,
                p + (history + accepted(chunk)).len() - scan(history, cap, chunk).len(),
            ),
{
    let h = history + accepted(chunk);
    let sc = scan(history, cap, chunk);
    let off = h.len() - sc.len();
    assert(sc =~= tail(h, sc.len() as int));
    assert forall|t: Seq<u8>, p: int| occurs_at(sc, t, p) implies occurs_at(h, t, p + off) by {
        assert(h.subrange(p + off, p + off + t.len()) =~= sc.subrange(p, p + t.len()));
    }
}

/// How a terminal token ends a command.
#[derive(PartialEq, Eq, Structural, Clone, Copy, Debug)]
pub enum Kind {
    Success,
    Failure,
}

/// A terminal token of a command. A whole-line token counts only once the line it opens has
/// ended with a newline, so that the fields after it have arrived.
#[derive(Clone, Debug)]
pub struct Token {
    pub text: Vec<u8>,
    pub kind: Kind,
    pub whole_line: bool,
}

/// Where the first match of a token ends in `buf`: just after its first occurrence, or for a
/// whole-line token just after the first newline that follows that occurrence.
pub open spec fn match_end(buf: Seq<u8>, text: Seq<u8>, whole_line: bool) -> Option<int> {
    match first_occurrence(buf, text) {
        None => None,
        Some(p) => if !whole_line {
            Some(p + text.len())
        } else {
            match first_from(buf, seq![10u8], p + text.len()) {
                None => None,
                Some(q) => Some(q + 1),
            }
        },
    }
}

pub open spec fn token_end(buf: Seq<u8>, t: Token) -> Option<int> {
    match_end(buf, t.text@, t.whole_line)
}

/// Token `i` is the first of `toks` to complete in `buf`; of tokens completing at the same
/// byte, the one listed first.
pub open spec fn is_winner(buf: Seq<u8>, toks: Seq<Token>, i: int) -> bool {
    &&& 0 <= i < toks.len()
    &&& token_end(buf, toks[i]) is Some
    &&& forall|j: int|
        0 <= j < toks.len() && #[trigger] token_end(buf, toks[j]) is Some ==> {
            let ei = token_end(buf, toks[i])->0;
            let ej = token_end(buf, toks[j])->0;
            ei < ej || (ei == ej && i <= j)
        }
}

/// No token of `toks` has completed in `buf`.
pub open spec fn none_complete(buf: Seq<u8>, toks: Seq<Token>) -> bool {
    forall|j: int| 0 <= j < toks.len() ==> #[trigger] token_end(buf, toks[j]) is None
}

/// Where the first match of `t` ends in `buf`.
pub fn token_match_end(buf: &[u8], t: &Token) -> (r: Option<usize>)
    ensures
        r is None == token_end(buf@, *t) is None,
        r matches Some(x) ==> token_end(buf@, *t) == Some(x as int),
{
    match find(buf, t.text.as_slice()) {
        None => None,
        Some(p) => {
            proof {
                crate::text::lemma_first_from(buf@, t.text@, 0);
            }
            assert(occurs_at(buf@, t.text@, p as int));
            // `p + t.text.len()`, taken within the slice's length.
            let after = buf.len() - (buf.len() - p - t.text.len());
            if !t.whole_line {
                Some(after)
            } else {
                let nl: Vec<u8> = vec![10u8];
                assert(nl@ =~= seq![10u8]);
                match find_from(buf, nl.as_slice(), after) {
                    None => None,
                    Some(q) => {
                        proof {
                            crate::text::lemma_first_from(buf@, nl@, after as int);
                            assert(occurs_at(buf@, nl@, q as int));
                        }
                        Some(buf.len() - (buf.len() - q - 1))
                    },
                }
            }
        },
    }
}

/// The token of `toks` that completes first in `buf`, if any has.
pub fn classify(buf: &[u8], toks: &Vec<Token>) -> (r: Option<usize>)
    ensures
        r matches Some(i) ==> is_winner(buf@, toks@, i as int),
        r is None ==> none_complete(buf@, toks@),
{
    let mut best: Option<(usize, usize)> = None;
    let mut k: usize = 0;
    while k < toks.len()
        invariant
            k <= toks@.len(),
            match best {
                None => forall|j: int| 0 <= j < k ==> #[trigger] token_end(buf@, toks@[j]) is None,
                Some((i, e)) => {
                    &&& i < k
                    &&& token_end(buf@, toks@[i as int]) == Some(e as int)
                    &&& forall|j: int|
                        0 <= j < k && #[trigger] token_end(buf@, toks@[j]) is Some ==> {
                            let ej = token_end(buf@, toks@[j])->0;
                            e < ej || (e == ej && i <= j)
                        }
                },
            },
        decreases toks@.len() - k,
    {
        let m = token_match_end(buf, &toks[k]);
        match m {
            None => {},
            Some(e) => {
                match best {
                    None => {
                        best = Some((k, e));
                    },
                    Some((_, be)) => {
                        if e < be {
                            best = Some((k, e));
                        }
                    },
                }
            },
        }
        k = k + 1;
    }
    match best {
        None => None,
        Some((i, _)) => Some(i),
    }
}

/// A command: the line sent (without its line ending), its terminal tokens, and how long to
/// wait for one of them. A command with a prompt token sends its payload only once the prompt
/// has arrived; the payload carries its own terminator, if the modem needs one. An empty line
/// sends nothing and only listens.
#[derive(Clone, Debug)]
pub struct Command {
    pub line: Vec<u8>,
    pub tokens: Vec<Token>,
    pub prompt: Option<Vec<u8>>,
    pub payload: Option<Vec<u8>>,
    pub timeout_ms: u64,
    pub max_reads: u32,
}

/// The result of issuing one command.
#[derive(Clone, Debug)]
pub enum Outcome {
    /// Token `token` of the command completed first; `captured` is the text it was found in,
    /// the end of the reply as received. `truncated` holds when earlier bytes of the reply had
    /// already been evicted and are missing from it.
    Matched { token: usize, kind: Kind, captured: Vec<u8>, truncated: bool },
    /// No token completed before the deadline or the last read.
    Timeout,
    /// The serial link failed.
    TransportError,
}

/// The bytes that start a command: its line and a line ending, then its payload when it has
/// no prompt to wait for.
pub open spec fn opening_bytes(c: Command) -> Seq<u8> {
    let line = if c.line@.len() == 0 {
        Seq::<u8>::empty()
    } else {
        c.line@ + seq![13u8, 10u8]
    };
    match (c.prompt, c.payload) {
        (None, Some(p)) => line + p@,
        _ => line,
    }
}

/// The bytes sent once the prompt has arrived.
pub open spec fn payload_bytes(c: Command) -> Seq<u8> {
    match c.payload {
        Some(p) => p@,
        None => Seq::empty(),
    }
}

/// The reads of a phase after one more, counting no further than the command allows.
pub open spec fn counted(reads: nat, c: Command) -> nat {
    if reads < c.max_reads {
        reads + 1
    } else {
        reads
    }
}

/// Where a command stands.
#[derive(PartialEq, Eq, Structural, Clone, Copy, Debug)]
pub enum Phase {
    AwaitingPrompt,
    AwaitingReply,
    Finished,
}

/// What the caller does next on behalf of an exchange.
#[derive(Clone, Debug)]
pub enum Reaction {
    /// Read again.
    Wait,
    /// Write these bytes, then read again.
    Send(Vec<u8>),
    /// The command has ended.
    Done(Outcome),
}

/// One command in progress. The caller writes what it is told to, reads the serial link, and
/// hands each read to `on_read`; every read counts, whether or not it brought bytes.
pub struct Exchange {
    command: Command,
    phase: Phase,
    acc: LineAccumulator,
    started_ms: u64,
    reads: u64,
}

impl Exchange {
    pub closed spec fn command(&self) -> Command {
        self.command
    }

    pub closed spec fn phase(&self) -> Phase {
        self.phase
    }

    /// The text received in the current phase.
    pub closed spec fn received(&self) -> Seq<u8> {
        self.acc.contents()
    }

    /// Every accepted byte received in the current phase.
    pub closed spec fn received_history(&self) -> Seq<u8> {
        self.acc.history()
    }

    pub closed spec fn received_truncated(&self) -> bool {
        self.acc.truncated()
    }

    pub closed spec fn capacity(&self) -> nat {
        self.acc.capacity()
    }

    /// When the current phase began.
    pub closed spec fn started(&self) -> u64 {
        self.started_ms
    }

    /// The reads made in the current phase.
    pub closed spec fn reads(&self) -> nat {
        self.reads as nat
    }

    pub open spec fn wf(&self) -> bool {
        &&& MARKER_LEN < self.capacity() <= STORAGE_BYTES
        &&& self.received() == window(self.received_history(), self.capacity())
        &&& self.received_truncated() == (self.received_history().len() > self.capacity())
        &&& self.reads() <= self.command().max_reads
        &&& self.phase() == Phase::AwaitingPrompt ==> self.command().prompt is Some
    }

    /// The current phase has run out of reads or of time at `now`.
    pub open spec fn expired(&self, now: u64) -> bool {
        self.reads() >= self.command().max_reads || (now >= self.started() && now
            - self.started() >= self.command().timeout_ms)
    }

    /// Starts `command` at time `now`; returns the exchange and the bytes to write first.
    pub fn begin(command: Command, now: u64, capacity: usize) -> (r: (Exchange, Vec<u8>))
        requires
            MARKER_LEN < capacity <= STORAGE_BYTES,
        ensures
            r.0.wf(),
            r.0.command() == command,
            r.0.capacity() == capacity,
            r.0.started() == now,
            r.0.reads() == 0,
            r.0.received_history() == Seq::<u8>::empty(),
            r.0.phase() == (if command.prompt is Some {
                Phase::AwaitingPrompt
            } else {
                Phase::AwaitingReply
            }),
            r.1@ == opening_bytes(command),
    {
        let mut out: Vec<u8> = Vec::new();
        if command.line.len() > 0 {
            push_all(&mut out, command.line.as_slice());
            out.push(13u8);
            out.push(10u8);
        }
        proof {
            if command.line@.len() > 0 {
                assert(out@ =~= command.line@ + seq![13u8, 10u8]);
            } else {
                assert(out@ =~= Seq::<u8>::empty());
            }
        }
        let phase = match &command.prompt {
            Some(_) => Phase::AwaitingPrompt,
            None => {
                match &command.payload {
                    Some(p) => push_all(&mut out, p.as_slice()),
                    None => {},
                }
                Phase::AwaitingReply
            },
        };
        let ex = Exchange {
            command,
            phase,
            acc: LineAccumulator::new(capacity),
            started_ms: now,
            reads: 0,
        };
        (ex, out)
    }

    /// Whether the command has ended.
    pub fn is_finished(&self) -> (r: bool)
        ensures
            r == (self.phase() == Phase::Finished),
    {
        self.phase == Phase::Finished
    }

    /// The serial link failed: the command ends with a transport error.
    pub fn on_fault(&mut self) -> (r: Outcome)
        requires
            old(self).wf(),
        ensures
            final(self).wf(),
            final(self).phase() == Phase::Finished,
            final(self).command() == old(self).command(),
            r is TransportError,
    {
        self.phase = Phase::Finished;
        Outcome::TransportError
    }

    /// A read at time `now` brought `chunk` (empty when nothing arrived in time).
    ///
    /// Each read is searched in the scan text: the bytes kept from earlier reads of the phase,
    /// without the truncation marker, followed by the whole read.
    ///
    /// Awaiting the prompt: once it has arrived the payload is sent and the reply awaited, in
    /// a fresh phase. Awaiting the reply: the first token to complete ends the command with
    /// its kind; without one, the command times out once the phase has expired.
    pub fn on_read(&mut self, chunk: &[u8], now: u64) -> (r: Reaction)
        requires
            old(self).wf(),
            old(self).phase() != Phase::Finished,
        ensures
            final(self).wf(),
            final(self).command() == old(self).command(),
            final(self).capacity() == old(self).capacity(),
            old(self).phase() == Phase::AwaitingReply ==> {
                let buf = scan(old(self).received_history(), old(self).capacity(), chunk@);
                let toks = old(self).command().tokens@;
                &&& final(self).received_history() == old(self).received_history() + accepted(
                    chunk@,
                )
                &&& final(self).reads() == counted(old(self).reads(), old(self).command())
                &&& final(self).started() == old(self).started()
                &&& match r {
                    Reaction::Done(Outcome::Matched { token, kind, captured, truncated }) => {
                        &&& is_winner(buf, toks, token as int)
                        &&& kind == toks[token as int].kind
                        &&& captured@ == buf
                        &&& truncated == (buf.len() < final(self).received_history().len())
                        &&& final(self).phase() == Phase::Finished
                    },
                    Reaction::Done(Outcome::Timeout) => {
                        &&& none_complete(buf, toks)
                        &&& final(self).expired(now)
                        &&& final(self).phase() == Phase::Finished
                    },
                    Reaction::Wait => {
                        &&& none_complete(buf, toks)
                        &&& !final(self).expired(now)
                        &&& final(self).phase() == Phase::AwaitingReply
                    },
                    _ => false,
                }
            },
            old(self).phase() == Phase::AwaitingPrompt ==> {
                let prompt = old(self).command().prompt->0@;
                let heard = scan(old(self).received_history(), old(self).capacity(), chunk@);
                match r {
                    Reaction::Send(bytes) => {
                        &&& exists|p: int| occurs_at(heard, prompt, p)
                        &&& bytes@ == payload_bytes(old(self).command())
                        &&& final(self).phase() == Phase::AwaitingReply
                        &&& final(self).received_history() == Seq::<u8>::empty()
                        &&& final(self).reads() == 0
                        &&& final(self).started() == now
                    },
                    Reaction::Done(Outcome::Timeout) => {
                        &&& !exists|p: int| occurs_at(heard, prompt, p)
                        &&& final(self).expired(now)
                        &&& final(self).phase() == Phase::Finished
                        &&& final(self).received_history() == old(self).received_history()
                            + accepted(chunk@)
                        &&& final(self).reads() == counted(old(self).reads(), old(self).command())
                        &&& final(self).started() == old(self).started()
                    },
                    Reaction::Wait => {
                        &&& !exists|p: int| occurs_at(heard, prompt, p)
                        &&& !final(self).expired(now)
                        &&& final(self).phase() == Phase::AwaitingPrompt
                        &&& final(self).received_history() == old(self).received_history()
                            + accepted(chunk@)
                        &&& final(self).reads() == counted(old(self).reads(), old(self).command())
                        &&& final(self).started() == old(self).started()
                    },
                    _ => false,
                }
            },
    {
        // Search the kept bytes and the whole read before anything is evicted.
        let mut text = vstd::slice::slice_to_vec(self.acc.recent());
        let earlier_lost = self.acc.is_truncated();
        if is_utf8(chunk) {
            push_all(&mut text, chunk);
        } else {
            proof {
                assert(text@ + accepted(chunk@) =~= text@);
            }
        }
        let ghost heard_text = text@;
        assert(heard_text == scan(self.acc.history(), self.acc.capacity(), chunk@));
        self.acc.feed(chunk);
        if self.reads < self.command.max_reads as u64 {
            self.reads = self.reads + 1;
        }
        let out_of_time = self.reads >= self.command.max_reads as u64 || (now >= self.started_ms
            && now - self.started_ms >= self.command.timeout_ms);
        if self.phase == Phase::AwaitingPrompt {
            let heard = match &self.command.prompt {
                Some(p) => contains(text.as_slice(), p.as_slice()),
                None => true,
            };
            if heard {
                let payload = match &self.command.payload {
                    Some(p) => vstd::slice::slice_to_vec(p.as_slice()),
                    None => Vec::new(),
                };
                self.acc = LineAccumulator::new(self.acc.capacity_bytes());
                self.phase = Phase::AwaitingReply;
                self.started_ms = now;
                self.reads = 0;
                Reaction::Send(payload)
            } else if out_of_time {
                self.phase = Phase::Finished;
                Reaction::Done(Outcome::Timeout)
            } else {
                Reaction::Wait
            }
        } else {
            match classify(text.as_slice(), &self.command.tokens) {
                Some(i) => {
                    self.phase = Phase::Finished;
                    proof {
                        lemma_scan_is_received(
                            old(self).received_history(),
                            old(self).capacity(),
                            chunk@,
                        );
                    }
                    let kind = self.command.tokens[i].kind;
                    Reaction::Done(
                        Outcome::Matched { token: i, kind, captured: text, truncated: earlier_lost },
                    )
                },
                None => {
                    if out_of_time {
                        self.phase = Phase::Finished;
                        Reaction::Done(Outcome::Timeout)
                    } else {
                        Reaction::Wait
                    }
                },
            }
        }
    }
}

/// When a success token has completed in the text a read is searched in (`scan`) and every
/// failure token either has not completed or completed only later, the command neither waits
/// nor times out, and the token it ends on is a success token.
pub proof fn lemma_success_before_failure(buf: Seq<u8>, toks: Seq<Token>, s: int)
    requires
        0 <= s < toks.len(),
        toks[s].kind == Kind::Success,
        token_end(buf, toks[s]) is Some,
        forall|j: int|
            0 <= j < toks.len() && toks[j].kind == Kind::Failure ==> match token_end(
                buf,
                toks[j],
            ) {
                None => true,
                Some(e) => e > token_end(buf, toks[s])->0,
            },
    ensures
        !none_complete(buf, toks),
        forall|w: int| is_winner(buf, toks, w) ==> toks[w].kind == Kind::Success,
{
    assert(token_end(buf, toks[s]) is Some);
    assert forall|w: int| is_winner(buf, toks, w) implies toks[w].kind == Kind::Success by {
        assert(token_end(buf, toks[s]) is Some);
        if toks[w].kind == Kind::Failure {
            assert(token_end(buf, toks[w])->0 <= token_end(buf, toks[s])->0);
        }
    }
}

/// Stream order decides: when a success token has arrived in full before any failure token
/// begins, the command ends on a success token, whatever the order of the token list.
pub proof fn lemma_success_first_in_stream(buf: Seq<u8>, toks: Seq<Token>, s: int)
    requires
        0 <= s < toks.len(),
        toks[s].kind == Kind::Success,
        !toks[s].whole_line,
        first_occurrence(buf, toks[s].text@) is Some,
        forall|j: int|
            0 <= j < toks.len() && toks[j].kind == Kind::Failure ==> toks[j].text@.len() > 0
                && match first_occurrence(buf, toks[j].text@) {
                None => true,
                Some(q) => q >= first_occurrence(buf, toks[s].text@)->0 + toks[s].text@.len(),
            },
    ensures
        !none_complete(buf, toks),
        forall|w: int| is_winner(buf, toks, w) ==> toks[w].kind == Kind::Success,
{
    let es = first_occurrence(buf, toks[s].text@)->0 + toks[s].text@.len();
    assert(token_end(buf, toks[s]) == Some(es));
    assert forall|j: int|
        0 <= j < toks.len() && toks[j].kind == Kind::Failure implies match token_end(
            buf,
            toks[j],
        ) {
            None => true,
            Some(e) => e > token_end(buf, toks[s])->0,
        } by {
        let t = toks[j];
        crate::text::lemma_first_from(buf, t.text@, 0);
        if let Some(q) = first_occurrence(buf, t.text@) {
            if t.whole_line {
                crate::text::lemma_first_from(buf, seq![10u8], q + t.text@.len());
            }
        }
    }
    lemma_success_before_failure(buf, toks, s);
}

/// A token that has not fully arrived is never taken for a match: when no token occurs in the
/// text a read is searched in (`scan`, which never holds the truncation marker), no token
/// completes, so the command can only wait or time out.
pub proof fn lemma_no_token_no_match(buf: Seq<u8>, toks: Seq<Token>)
    requires
        forall|j: int| 0 <= j < toks.len() ==> !exists|p: int| occurs_at(buf, #[trigger] toks[j].text@, p),
    ensures
        none_complete(buf, toks),
        forall|w: int| !is_winner(buf, toks, w),
{
    assert forall|j: int| 0 <= j < toks.len() implies #[trigger] token_end(buf, toks[j]) is None by {
        crate::text::lemma_first_from(buf, toks[j].text@, 0);
        if first_occurrence(buf, toks[j].text@) is Some {
            let p = first_occurrence(buf, toks[j].text@)->0;
            assert(occurs_at(buf, toks[j].text@, p));
        }
    }
}

} // verus!
