//! The single consumer of operation requests, holding at most one at a time.
use vstd::prelude::*;
use vstd::string::StringSliceAdditionalSpecFns;
use crate::matcher::{Command, Kind, Outcome, Token};
use crate::store::ResultStore;
use crate::text::bytes_of;
use crate::workflow::{REPLY_READS, REPLY_TIMEOUT_MS};

verus! {

/// A request for the modem.
#[derive(Clone, Debug)]
pub enum Trigger {
    /// Send one free-form command.
    AdHocCommand(Vec<u8>),
    /// Run the fetch workflow.
    RunWorkflow,
}

/// Holds the one request in flight: submitted and waiting, or taken and being serviced.
pub struct Dispatcher {
    pending: Option<Trigger>,
    busy: bool,
}

/// A submission is accepted exactly when nothing is waiting and nothing is being serviced.
pub open spec fn accepts(pending: Option<Trigger>, busy: bool) -> bool {
    pending is None && !busy
}

impl Dispatcher {
    pub closed spec fn pending(&self) -> Option<Trigger> {
        self.pending
    }

    pub closed spec fn busy(&self) -> bool {
        self.busy
    }

    /// Nothing is waiting while a request is being serviced.
    pub open spec fn wf(&self) -> bool {
        self.busy() ==> self.pending() is None
    }

    pub open spec fn in_flight(&self) -> bool {
        !accepts(self.pending(), self.busy())
    }

    pub fn new() -> (r: Self)
        ensures
            r.wf(),
            r.pending() is None,
            !r.busy(),
    {
        Dispatcher { pending: None, busy: false }
    }

    /// Offers a request; it is refused while another is in flight.
    pub fn submit(&mut self, t: Trigger) -> (r: bool)
        requires
            old(self).wf(),
        ensures
            final(self).wf(),
            r == accepts(old(self).pending(), old(self).busy()),
            r ==> final(self).pending() == Some(t) && !final(self).busy(),
            !r ==> final(self).pending() == old(self).pending() && final(self).busy() == old(
                self,
            ).busy(),
    {
        if self.busy || self.pending.is_some() {
            false
        } else {
            self.pending = Some(t);
            true
        }
    }

    /// Takes the waiting request for servicing.
    pub fn take(&mut self) -> (r: Option<Trigger>)
        requires
            old(self).wf(),
        ensures
            final(self).wf(),
            r == old(self).pending(),
            final(self).pending() is None,
            final(self).busy() == (old(self).busy() || old(self).pending() is Some),
    {
        let r = self.pending.take();
        if r.is_some() {
            self.busy = true;
        }
        r
    }

    /// The request being serviced has finished.
    pub fn complete(&mut self)
        requires
            old(self).wf(),
        ensures
            final(self).wf(),
            final(self).pending() == old(self).pending(),
            !final(self).busy(),
    {
        self.busy = false;
    }

    pub fn is_in_flight(&self) -> (r: bool)
        ensures
            r == self.in_flight(),
    {
        self.busy || self.pending.is_some()
    }
}

/// While a request is being serviced a submission is refused; once it has completed, a
/// submission is accepted.
pub proof fn lemma_busy_then_free(d: Dispatcher)
    requires
        d.wf(),
        d.busy(),
    ensures
        !accepts(d.pending(), d.busy()),
        accepts(d.pending(), false),
{
}

/// Whether `b` may stand in a command line: printable ASCII.
pub open spec fn is_printable(b: u8) -> bool {
    32 <= b < 127
}

/// The bytes of `s` that may stand in a command line, in order.
pub open spec fn sanitized(s: Seq<u8>) -> Seq<u8> {
    s.filter(|b: u8| is_printable(b))
}

/// The command sent for a free-form request: its printable bytes, answered by `OK` or `ERROR`.
pub fn adhoc_command(text: &[u8]) -> (r: Command)
    ensures
        r.line@ == sanitized(text@),
        r.tokens@.len() == 2,
        r.tokens@[0].text@ == seq![79u8, 75],
        r.tokens@[0].kind == Kind::Success,
        !r.tokens@[0].whole_line,
        r.tokens@[1].text@ == seq![69u8, 82, 82, 79, 82],
        r.tokens@[1].kind == Kind::Failure,
        !r.tokens@[1].whole_line,
        r.prompt is None,
        r.payload is None,
        r.timeout_ms == REPLY_TIMEOUT_MS,
        r.max_reads == REPLY_READS,
{
    let mut line: Vec<u8> = Vec::new();
    let mut i: usize = 0;
    while i < text.len()
        invariant
            i <= text@.len(),
            line@ == sanitized(text@.subrange(0, i as int)),
        decreases text@.len() - i,
    {
        proof {
            let s = text@.subrange(0, i + 1);
            assert(s.drop_last() =~= text@.subrange(0, i as int));
            reveal(Seq::filter);
        }
        if 32 <= text[i] && text[i] < 127 {
            line.push(text[i]);
        }
        i = i + 1;
    }
    proof {
        assert(text@.subrange(0, text@.len() as int) =~= text@);
    }
    let ok: Vec<u8> = vec![79u8, 75];
    let err: Vec<u8> = vec![69u8, 82, 82, 79, 82];
    let mut tokens: Vec<Token> = Vec::new();
    tokens.push(Token { text: ok, kind: Kind::Success, whole_line: false });
    tokens.push(Token { text: err, kind: Kind::Failure, whole_line: false });
    Command {
        line,
        tokens,
        prompt: None,
        payload: None,
        timeout_ms: REPLY_TIMEOUT_MS,
        max_reads: REPLY_READS,
    }
}

/// The status label after a free-form command: success, rejection, no reply and a link fault
/// read differently.
pub open spec fn adhoc_label(o: Outcome) -> Seq<u8> {
    match o {
        Outcome::Matched { kind: Kind::Success, .. } => "Command OK".spec_bytes(),
        Outcome::Matched { .. } => "ERROR: command rejected".spec_bytes(),
        Outcome::Timeout => "ERROR: no response".spec_bytes(),
        Outcome::TransportError => "ERROR: serial fault".spec_bytes(),
    }
}

/// Publishes the outcome of a free-form command: its label becomes the status.
pub fn finish_adhoc(outcome: &Outcome, store: &mut ResultStore)
    requires
        old(store).wf(),
    ensures
        final(store).wf(),
        final(store).status() == adhoc_label(*outcome),
        final(store).log_history() == old(store).log_history(),
        final(store).log_capacity() == old(store).log_capacity(),
        final(store).tx() == old(store).tx(),
        final(store).rx() == old(store).rx(),
{
    proof {
        broadcast use vstd::string::is_ascii_spec_bytes;
        reveal_strlit("Command OK");
        reveal_strlit("ERROR: command rejected");
        reveal_strlit("ERROR: no response");
        reveal_strlit("ERROR: serial fault");
        assert(vstd::string::is_ascii("Command OK"));
        assert(vstd::string::is_ascii("ERROR: command rejected"));
        assert(vstd::string::is_ascii("ERROR: no response"));
        assert(vstd::string::is_ascii("ERROR: serial fault"));
    }
    let label = match outcome {
        Outcome::Matched { kind: Kind::Success, .. } => bytes_of("Command OK"),
        Outcome::Matched { .. } => bytes_of("ERROR: command rejected"),
        Outcome::Timeout => bytes_of("ERROR: no response"),
        Outcome::TransportError => bytes_of("ERROR: serial fault"),
    };
    store.set_status(label.as_slice());
}

} // verus!
