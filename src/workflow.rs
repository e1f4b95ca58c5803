//! The provisioning-and-transfer workflow: a fixed table of steps driven by command outcomes.
use vstd::prelude::*;
use vstd::string::StringSliceAdditionalSpecFns;
use crate::matcher::{Command, Kind, Outcome, Token};
use crate::store::ResultStore;
use crate::text::{push_all, bytes_of, decimal_digits, field_at, find, first_occurrence, format_decimal, parse_field};

verus! {

/// A protocol milestone of the workflow.
#[derive(PartialEq, Eq, Structural, Clone, Copy, Debug)]
pub enum Step {
    CheckingSim,
    CheckingRegistration,
    Attaching,
    ConfiguringApn,
    ActivatingContext,
    /// The recovery query issued when activation reports failure.
    QueryingContext,
    OpeningSocket,
    AwaitingSendPrompt,
    /// Confirms delivery by querying the bytes sent and acknowledged.
    SendingPayload,
    AwaitingReceiveNotice,
    ReadingPayload,
    Closed,
}

/// Why a run failed.
#[derive(PartialEq, Eq, Structural, Clone, Copy, Debug)]
pub enum Cause {
    /// No terminal token arrived in time.
    NoResponse,
    /// The modem answered with a failure token or a non-zero error code.
    Rejected,
    /// The serial link failed.
    LinkFault,
}

/// Where a run stands.
#[derive(PartialEq, Eq, Structural, Clone, Copy, Debug)]
pub enum Stage {
    Running(Step),
    Completed,
    Failed(Step, Cause),
}

/// How the workflow reads the outcome of a step's command.
#[derive(PartialEq, Eq, Structural, Clone, Copy, Debug)]
pub enum Verdict {
    Success,
    Failure,
    Timeout,
    Fault,
}

/// What the engine believes of a piece of modem state.
#[derive(PartialEq, Eq, Structural, Clone, Copy, Debug)]
pub enum Belief {
    Unknown,
    Yes,
    No,
}

/// What the engine believes of the modem's data session.
#[derive(PartialEq, Eq, Structural, Clone, Copy, Debug)]
pub struct Session {
    pub context_active: Belief,
    pub socket_open: Belief,
}

/// The stage that follows a successful step.
pub open spec fn successor(s: Step) -> Stage {
    match s {
        Step::CheckingSim => Stage::Running(Step::CheckingRegistration),
        Step::CheckingRegistration => Stage::Running(Step::Attaching),
        Step::Attaching => Stage::Running(Step::ConfiguringApn),
        Step::ConfiguringApn => Stage::Running(Step::ActivatingContext),
        Step::ActivatingContext => Stage::Running(Step::OpeningSocket),
        Step::QueryingContext => Stage::Running(Step::OpeningSocket),
        Step::OpeningSocket => Stage::Running(Step::AwaitingSendPrompt),
        Step::AwaitingSendPrompt => Stage::Running(Step::SendingPayload),
        Step::SendingPayload => Stage::Running(Step::AwaitingReceiveNotice),
        Step::AwaitingReceiveNotice => Stage::Running(Step::ReadingPayload),
        Step::ReadingPayload => Stage::Running(Step::Closed),
        Step::Closed => Stage::Completed,
    }
}

/// The transition rule. Success advances. Closing ends the run whatever its verdict. A failed or
/// timed-out activation is followed by the status query. Anything else fails the run.
pub open spec fn next_stage(s: Step, v: Verdict) -> Stage {
    if v == Verdict::Success {
        successor(s)
    } else if s == Step::Closed {
        Stage::Completed
    } else if s == Step::ActivatingContext && (v == Verdict::Failure || v == Verdict::Timeout) {
        Stage::Running(Step::QueryingContext)
    } else {
        Stage::Failed(
            s,
            match v {
                Verdict::Timeout => Cause::NoResponse,
                Verdict::Fault => Cause::LinkFault,
                _ => Cause::Rejected,
            },
        )
    }
}

/// The bytes `+QIOPEN: `, which open the modem's socket-open result.
pub open spec fn open_tag() -> Seq<u8> {
    seq![43u8, 81, 73, 79, 80, 69, 78, 58, 32]
}

/// The bytes `+QIACT: `, which open a line of the context status report.
pub open spec fn context_tag() -> Seq<u8> {
    seq![43u8, 81, 73, 65, 67, 84, 58, 32]
}

/// The two comma-separated decimal fields that follow the first occurrence of `tag` in `text`.
pub open spec fn tagged_pair(text: Seq<u8>, tag: Seq<u8>) -> Option<(nat, nat)> {
    match first_occurrence(text, tag) {
        None => None,
        Some(p) => match field_at(text, p + tag.len()) {
            None => None,
            Some((a, e)) => if e < text.len() && text[e] == 44u8 {
                match field_at(text, e + 1) {
                    None => None,
                    Some((b, _)) => Some((a, b)),
                }
            } else {
                None
            },
        },
    }
}

/// The socket opened: the open result carries a zero error code.
pub open spec fn open_succeeded(text: Seq<u8>) -> bool {
    tagged_pair(text, open_tag()) matches Some((_, err)) && err == 0
}

/// The status report shows the context activated: its state field is 1.
pub open spec fn context_reported_active(text: Seq<u8>) -> bool {
    tagged_pair(text, context_tag()) matches Some((_, state)) && state == 1
}

/// How `s` reads outcome `o`. A success token counts as success, except where the step needs
/// the fields that follow it: opening a socket needs a zero error code. The status query is read
/// from its text alone: it succeeds exactly when the reply shows the context active, whichever
/// token ended it.
pub open spec fn verdict_of(s: Step, o: Outcome) -> Verdict {
    match o {
        Outcome::Timeout => Verdict::Timeout,
        Outcome::TransportError => Verdict::Fault,
        Outcome::Matched { kind, captured, .. } => if s == Step::QueryingContext {
            if context_reported_active(captured@) {
                Verdict::Success
            } else {
                Verdict::Failure
            }
        } else if kind == Kind::Failure {
            Verdict::Failure
        } else if s == Step::OpeningSocket && !open_succeeded(captured@) {
            Verdict::Failure
        } else {
            Verdict::Success
        },
    }
}

/// What the session believes after `s` ended with `v`; only success changes it.
pub open spec fn next_session(b: Session, s: Step, v: Verdict) -> Session {
    if v != Verdict::Success {
        b
    } else {
        match s {
            Step::ActivatingContext | Step::QueryingContext => Session {
                context_active: Belief::Yes,
                ..b
            },
            Step::OpeningSocket => Session { socket_open: Belief::Yes, ..b },
            Step::Closed => Session { socket_open: Belief::No, ..b },
            _ => b,
        }
    }
}

/// Reads the two comma-separated decimal fields after the first `tag` in `text`.
pub fn parse_tagged_pair(text: &[u8], tag: &[u8]) -> (r: Option<(u32, u32)>)
    ensures
        match tagged_pair(text@, tag@) {
            Some((a, b)) => r matches Some((x, y)) && x as nat == a && y as nat == b,
            None => r is None,
        },
{
    match find(text, tag) {
        None => None,
        Some(p) => {
            proof {
                crate::text::lemma_first_from(text@, tag@, 0);
            }
            assert(crate::text::occurs_at(text@, tag@, p as int));
            match parse_field(text, text.len() - (text.len() - p - tag.len())) {
                None => None,
                Some((a, e)) => {
                    if e < text.len() && text[e] == 44u8 {
                        match parse_field(text, e + 1) {
                            None => None,
                            Some((b, _)) => Some((a, b)),
                        }
                    } else {
                        None
                    }
                },
            }
        },
    }
}

/// Whether `text` holds a socket-open result with a zero error code.
pub fn socket_opened(text: &[u8]) -> (r: bool)
    ensures
        r == open_succeeded(text@),
{
    let tag: Vec<u8> = vec![43u8, 81, 73, 79, 80, 69, 78, 58, 32];
    assert(tag@ =~= open_tag());
    match parse_tagged_pair(text, tag.as_slice()) {
        Some((_, err)) => err == 0,
        None => false,
    }
}

/// Whether `text` holds a status report line showing the context activated.
pub fn context_active(text: &[u8]) -> (r: bool)
    ensures
        r == context_reported_active(text@),
{
    let tag: Vec<u8> = vec![43u8, 81, 73, 65, 67, 84, 58, 32];
    assert(tag@ =~= context_tag());
    match parse_tagged_pair(text, tag.as_slice()) {
        Some((_, state)) => state == 1,
        None => false,
    }
}

/// How `step` reads `outcome`.
pub fn verdict(step: Step, outcome: &Outcome) -> (r: Verdict)
    ensures
        r == verdict_of(step, *outcome),
{
    match outcome {
        Outcome::Timeout => Verdict::Timeout,
        Outcome::TransportError => Verdict::Fault,
        Outcome::Matched { kind, captured, .. } => {
            if step == Step::QueryingContext {
                if context_active(captured.as_slice()) {
                    Verdict::Success
                } else {
                    Verdict::Failure
                }
            } else if *kind == Kind::Failure {
                Verdict::Failure
            } else if step == Step::OpeningSocket && !socket_opened(captured.as_slice()) {
                Verdict::Failure
            } else {
                Verdict::Success
            }
        },
    }
}

/// The stage after `step` ended with `v`.
pub fn advance(step: Step, v: Verdict) -> (r: Stage)
    ensures
        r == next_stage(step, v),
{
    if v == Verdict::Success {
        match step {
            Step::CheckingSim => Stage::Running(Step::CheckingRegistration),
            Step::CheckingRegistration => Stage::Running(Step::Attaching),
            Step::Attaching => Stage::Running(Step::ConfiguringApn),
            Step::ConfiguringApn => Stage::Running(Step::ActivatingContext),
            Step::ActivatingContext => Stage::Running(Step::OpeningSocket),
            Step::QueryingContext => Stage::Running(Step::OpeningSocket),
            Step::OpeningSocket => Stage::Running(Step::AwaitingSendPrompt),
            Step::AwaitingSendPrompt => Stage::Running(Step::SendingPayload),
            Step::SendingPayload => Stage::Running(Step::AwaitingReceiveNotice),
            Step::AwaitingReceiveNotice => Stage::Running(Step::ReadingPayload),
            Step::ReadingPayload => Stage::Running(Step::Closed),
            Step::Closed => Stage::Completed,
        }
    } else if step == Step::Closed {
        Stage::Completed
    } else if step == Step::ActivatingContext && (v == Verdict::Failure || v == Verdict::Timeout) {
        Stage::Running(Step::QueryingContext)
    } else {
        let cause = match v {
            Verdict::Timeout => Cause::NoResponse,
            Verdict::Fault => Cause::LinkFault,
            _ => Cause::Rejected,
        };
        Stage::Failed(step, cause)
    }
}


/// The name of a step, as the log and the status label show it.
pub open spec fn step_name(s: Step) -> Seq<u8> {
    match s {
        Step::CheckingSim => "CheckingSim".spec_bytes(),
        Step::CheckingRegistration => "CheckingRegistration".spec_bytes(),
        Step::Attaching => "Attaching".spec_bytes(),
        Step::ConfiguringApn => "ConfiguringApn".spec_bytes(),
        Step::ActivatingContext => "ActivatingContext".spec_bytes(),
        Step::QueryingContext => "QueryingContext".spec_bytes(),
        Step::OpeningSocket => "OpeningSocket".spec_bytes(),
        Step::AwaitingSendPrompt => "AwaitingSendPrompt".spec_bytes(),
        Step::SendingPayload => "SendingPayload".spec_bytes(),
        Step::AwaitingReceiveNotice => "AwaitingReceiveNotice".spec_bytes(),
        Step::ReadingPayload => "ReadingPayload".spec_bytes(),
        Step::Closed => "Closed".spec_bytes(),
    }
}

/// The name of `s`.
pub fn name_of(s: Step) -> (r: Vec<u8>)
    ensures
        r@ == step_name(s),
{
    match s {
        Step::CheckingSim => bytes_of("CheckingSim"),
        Step::CheckingRegistration => bytes_of("CheckingRegistration"),
        Step::Attaching => bytes_of("Attaching"),
        Step::ConfiguringApn => bytes_of("ConfiguringApn"),
        Step::ActivatingContext => bytes_of("ActivatingContext"),
        Step::QueryingContext => bytes_of("QueryingContext"),
        Step::OpeningSocket => bytes_of("OpeningSocket"),
        Step::AwaitingSendPrompt => bytes_of("AwaitingSendPrompt"),
        Step::SendingPayload => bytes_of("SendingPayload"),
        Step::AwaitingReceiveNotice => bytes_of("AwaitingReceiveNotice"),
        Step::ReadingPayload => bytes_of("ReadingPayload"),
        Step::Closed => bytes_of("Closed"),
    }
}

/// How long a step waits for its reply, in milliseconds.
pub const REPLY_TIMEOUT_MS: u64 = 5000;

/// How long activation and socket opening wait; the modem takes its time over both.
pub const SLOW_REPLY_TIMEOUT_MS: u64 = 15000;

/// How many reads a step makes before it gives up.
pub const REPLY_READS: u32 = 50;

/// How many reads the polling steps make, at the caller's fixed spacing, before they give up.
pub const POLL_READS: u32 = 200;

/// The command line of each step; the send command names the payload's length.
pub open spec fn line_of(s: Step, payload_len: nat) -> Seq<u8> {
    match s {
        Step::CheckingSim => "AT+CPIN?".spec_bytes(),
        Step::CheckingRegistration => "AT+CREG?".spec_bytes(),
        Step::Attaching => "AT+CGATT=1".spec_bytes(),
        Step::ConfiguringApn => "AT+CGDCONT=1,\"IP\",\"ctnet\"".spec_bytes(),
        Step::ActivatingContext => "AT+QIACT=1".spec_bytes(),
        Step::QueryingContext => "AT+QIACT?".spec_bytes(),
        Step::OpeningSocket => "AT+QIOPEN=1,0,\"TCP\",\"httpbin.org\",80,0,1".spec_bytes(),
        Step::AwaitingSendPrompt => "AT+QISEND=0,".spec_bytes() + decimal_digits(payload_len),
        Step::SendingPayload => "AT+QISEND=0,0".spec_bytes(),
        Step::AwaitingReceiveNotice => Seq::empty(),
        Step::ReadingPayload => "AT+QIRD=0,1500".spec_bytes(),
        Step::Closed => "AT+QICLOSE=0".spec_bytes(),
    }
}

/// The terminal tokens of each step: text, kind, and whether the whole line is needed. Reading
/// the payload ends on an `OK` line of its own, since the data read may hold `OK` itself.
pub open spec fn token_table(s: Step) -> Seq<(Seq<u8>, Kind, bool)> {
    match s {
        Step::CheckingSim => seq![
            ("READY".spec_bytes(), Kind::Success, false),
            ("ERROR".spec_bytes(), Kind::Failure, false),
        ],
        Step::OpeningSocket => seq![
            (open_tag(), Kind::Success, true),
            ("ERROR".spec_bytes(), Kind::Failure, false),
        ],
        Step::AwaitingSendPrompt => seq![
            ("SEND OK".spec_bytes(), Kind::Success, false),
            ("SEND FAIL".spec_bytes(), Kind::Failure, false),
            ("ERROR".spec_bytes(), Kind::Failure, false),
        ],
        Step::AwaitingReceiveNotice => seq![
            ("+QIURC: \"recv\"".spec_bytes(), Kind::Success, false),
            ("+QIURC: \"closed\"".spec_bytes(), Kind::Failure, false),
        ],
        Step::ReadingPayload => seq![
            ("\r\nOK\r\n".spec_bytes(), Kind::Success, false),
            ("ERROR".spec_bytes(), Kind::Failure, false),
        ],
        _ => seq![("OK".spec_bytes(), Kind::Success, false), ("ERROR".spec_bytes(), Kind::Failure, false)],
    }
}

pub open spec fn timeout_of(s: Step) -> u64 {
    match s {
        Step::ActivatingContext | Step::OpeningSocket => SLOW_REPLY_TIMEOUT_MS,
        Step::AwaitingReceiveNotice | Step::ReadingPayload => u64::MAX,
        _ => REPLY_TIMEOUT_MS,
    }
}

pub open spec fn reads_of(s: Step) -> u32 {
    match s {
        Step::AwaitingReceiveNotice | Step::ReadingPayload => POLL_READS,
        _ => REPLY_READS,
    }
}

/// `c` is the command of step `s`, with `payload` as the data sent.
pub open spec fn is_step_command(c: Command, s: Step, payload: Seq<u8>) -> bool {
    &&& c.line@ == line_of(s, payload.len())
    &&& c.tokens@.len() == token_table(s).len()
    &&& forall|i: int|
        0 <= i < c.tokens@.len() ==> (#[trigger] c.tokens@[i]).text@ == token_table(s)[i].0
            && c.tokens@[i].kind == token_table(s)[i].1 && c.tokens@[i].whole_line
            == token_table(s)[i].2
    &&& if s == Step::AwaitingSendPrompt {
        &&& c.prompt matches Some(p) && p@ == ">".spec_bytes()
        &&& c.payload matches Some(d) && d@ == payload
    } else {
        c.prompt is None && c.payload is None
    }
    &&& c.timeout_ms == timeout_of(s)
    &&& c.max_reads == reads_of(s)
}

fn token(text: &str, kind: Kind, whole_line: bool) -> (r: Token)
    ensures
        r.text@ == text.spec_bytes(),
        r.kind == kind,
        r.whole_line == whole_line,
{
    Token { text: bytes_of(text), kind, whole_line }
}

fn token_pair(ok: Token, err: Token) -> (r: Vec<Token>)
    ensures
        r@ == seq![ok, err],
{
    let mut v: Vec<Token> = Vec::new();
    v.push(ok);
    v.push(err);
    assert(v@ =~= seq![ok, err]);
    v
}

/// The command of step `s`; `payload` is the data the workflow sends.
pub fn command_for(s: Step, payload: &Vec<u8>) -> (r: Command)
    ensures
        is_step_command(r, s, payload@),
{
    let ok_err = token_pair(token("OK", Kind::Success, false), token("ERROR", Kind::Failure, false));
    let (line, tokens) = match s {
        Step::CheckingSim => (
            bytes_of("AT+CPIN?"),
            token_pair(token("READY", Kind::Success, false), token("ERROR", Kind::Failure, false)),
        ),
        Step::CheckingRegistration => (bytes_of("AT+CREG?"), ok_err),
        Step::Attaching => (bytes_of("AT+CGATT=1"), ok_err),
        Step::ConfiguringApn => (bytes_of("AT+CGDCONT=1,\"IP\",\"ctnet\""), ok_err),
        Step::ActivatingContext => (bytes_of("AT+QIACT=1"), ok_err),
        Step::QueryingContext => (bytes_of("AT+QIACT?"), ok_err),
        Step::OpeningSocket => {
            let tag: Vec<u8> = vec![43u8, 81, 73, 79, 80, 69, 78, 58, 32];
            assert(tag@ =~= open_tag());
            (
                bytes_of("AT+QIOPEN=1,0,\"TCP\",\"httpbin.org\",80,0,1"),
                token_pair(
                    Token { text: tag, kind: Kind::Success, whole_line: true },
                    token("ERROR", Kind::Failure, false),
                ),
            )
        },
        Step::AwaitingSendPrompt => {
            let mut line = bytes_of("AT+QISEND=0,");
            let digits = format_decimal(payload.len());
            let ghost head = line@;
            let mut i: usize = 0;
            while i < digits.len()
                invariant
                    i <= digits@.len(),
                    line@ == head + digits@.subrange(0, i as int),
                decreases digits@.len() - i,
            {
                line.push(digits[i]);
                proof {
                    assert(digits@.subrange(0, i + 1) =~= digits@.subrange(0, i as int).push(digits@[i as int]));
                }
                i = i + 1;
            }
            proof {
                assert(digits@.subrange(0, digits@.len() as int) =~= digits@);
            }
            let mut toks = token_pair(
                token("SEND OK", Kind::Success, false),
                token("SEND FAIL", Kind::Failure, false),
            );
            let e = token("ERROR", Kind::Failure, false);
            toks.push(e);
            (line, toks)
        },
        Step::SendingPayload => (bytes_of("AT+QISEND=0,0"), ok_err),
        Step::AwaitingReceiveNotice => (
            Vec::new(),
            token_pair(
                token("+QIURC: \"recv\"", Kind::Success, false),
                token("+QIURC: \"closed\"", Kind::Failure, false),
            ),
        ),
        Step::ReadingPayload => (
            bytes_of("AT+QIRD=0,1500"),
            token_pair(token("\r\nOK\r\n", Kind::Success, false), token("ERROR", Kind::Failure, false)),
        ),
        Step::Closed => (bytes_of("AT+QICLOSE=0"), ok_err),
    };
    let (prompt, data) = if s == Step::AwaitingSendPrompt {
        (Some(bytes_of(">")), Some(vstd::slice::slice_to_vec(payload.as_slice())))
    } else {
        (None, None)
    };
    let timeout_ms = match s {
        Step::ActivatingContext | Step::OpeningSocket => SLOW_REPLY_TIMEOUT_MS,
        Step::AwaitingReceiveNotice | Step::ReadingPayload => u64::MAX,
        _ => REPLY_TIMEOUT_MS,
    };
    let max_reads = match s {
        Step::AwaitingReceiveNotice | Step::ReadingPayload => POLL_READS,
        _ => REPLY_READS,
    };
    Command { line, tokens, prompt, payload: data, timeout_ms, max_reads }
}

/// The label of a verdict in the log.
pub open spec fn verdict_label(v: Verdict) -> Seq<u8> {
    match v {
        Verdict::Success => "ok".spec_bytes(),
        Verdict::Failure => "failed".spec_bytes(),
        Verdict::Timeout => "timeout".spec_bytes(),
        Verdict::Fault => "link fault".spec_bytes(),
    }
}

/// The log line recording that step `s` ended with `v`.
pub open spec fn trace_line(s: Step, v: Verdict) -> Seq<u8> {
    step_name(s) + " -> ".spec_bytes() + verdict_label(v) + "\n".spec_bytes()
}

/// What the log records besides the trace line: the last reply of a step that failed the run.
pub open spec fn failure_detail(st: Stage, o: Outcome) -> Seq<u8> {
    match (st, o) {
        (Stage::Failed(_, _), Outcome::Matched { captured, .. }) => captured@ + "\n".spec_bytes(),
        _ => Seq::empty(),
    }
}

/// The status label of a stage. A missing reply, a rejection and a link fault read differently.
pub open spec fn status_label(st: Stage) -> Seq<u8> {
    match st {
        Stage::Running(s) => "Running: ".spec_bytes() + step_name(s),
        Stage::Completed => "Workflow complete".spec_bytes(),
        Stage::Failed(s, Cause::NoResponse) => "ERROR: no response at ".spec_bytes() + step_name(s),
        Stage::Failed(s, Cause::Rejected) => "ERROR: rejected at ".spec_bytes() + step_name(s),
        Stage::Failed(s, Cause::LinkFault) => "ERROR: serial fault at ".spec_bytes() + step_name(s),
    }
}

proof fn lemma_label_nonempty(st: Stage)
    ensures
        status_label(st).len() > 0,
{
    broadcast use vstd::string::is_ascii_spec_bytes;
    reveal_strlit("Running: ");
    reveal_strlit("Workflow complete");
    reveal_strlit("ERROR: no response at ");
    reveal_strlit("ERROR: rejected at ");
    reveal_strlit("ERROR: serial fault at ");
    assert(vstd::string::is_ascii("Running: "));
    assert(vstd::string::is_ascii("Workflow complete"));
    assert(vstd::string::is_ascii("ERROR: no response at "));
    assert(vstd::string::is_ascii("ERROR: rejected at "));
    assert(vstd::string::is_ascii("ERROR: serial fault at "));
}

/// The status label of `st`.
pub fn label_of(st: Stage) -> (r: Vec<u8>)
    ensures
        r@ == status_label(st),
        r@.len() > 0,
{
    proof {
        lemma_label_nonempty(st);
    }
    let (mut r, s) = match st {
        Stage::Running(s) => (bytes_of("Running: "), s),
        Stage::Completed => {
            return bytes_of("Workflow complete");
        },
        Stage::Failed(s, Cause::NoResponse) => (bytes_of("ERROR: no response at "), s),
        Stage::Failed(s, Cause::Rejected) => (bytes_of("ERROR: rejected at "), s),
        Stage::Failed(s, Cause::LinkFault) => (bytes_of("ERROR: serial fault at "), s),
    };
    let name = name_of(s);
    push_all(&mut r, name.as_slice());
    r
}

fn verdict_text(v: Verdict) -> (r: Vec<u8>)
    ensures
        r@ == verdict_label(v),
{
    match v {
        Verdict::Success => bytes_of("ok"),
        Verdict::Failure => bytes_of("failed"),
        Verdict::Timeout => bytes_of("timeout"),
        Verdict::Fault => bytes_of("link fault"),
    }
}

/// The bytes `+QIURC: "recv"`, the modem's notice that received data is waiting.
pub open spec fn recv_notice() -> Seq<u8> {
    seq![43u8, 81, 73, 85, 82, 67, 58, 32, 34, 114, 101, 99, 118, 34]
}

/// The outcome's reply holds the receive notice.
pub open spec fn notice_in(o: Outcome) -> bool {
    o matches Outcome::Matched { captured, .. } && first_occurrence(captured@, recv_notice()) is Some
}

/// The stage after `s` ended with `v`, once the receive notice is known to have arrived
/// (`seen`): a run that would wait for the notice reads the data at once instead.
pub open spec fn stage_after(s: Step, v: Verdict, seen: bool) -> Stage {
    if seen && next_stage(s, v) == Stage::Running(Step::AwaitingReceiveNotice) {
        Stage::Running(Step::ReadingPayload)
    } else {
        next_stage(s, v)
    }
}

/// Whether the outcome's reply holds the receive notice.
pub fn holds_notice(o: &Outcome) -> (r: bool)
    ensures
        r == notice_in(*o),
{
    match o {
        Outcome::Matched { captured, .. } => {
            let tag: Vec<u8> = vec![43u8, 81, 73, 85, 82, 67, 58, 32, 34, 114, 101, 99, 118, 34];
            assert(tag@ =~= recv_notice());
            find(captured.as_slice(), tag.as_slice()).is_some()
        },
        _ => false,
    }
}

/// One run of the workflow. The caller issues `command()` through an exchange and hands the
/// outcome to `on_outcome`, until the run has completed or failed.
pub struct Workflow {
    stage: Stage,
    session: Session,
    payload: Vec<u8>,
    notice_seen: bool,
}

impl Workflow {
    pub closed spec fn stage(&self) -> Stage {
        self.stage
    }

    pub closed spec fn session(&self) -> Session {
        self.session
    }

    /// A reply of the run has held the receive notice.
    pub closed spec fn notice_seen(&self) -> bool {
        self.notice_seen
    }

    /// The data the run sends once its socket is open.
    pub closed spec fn payload(&self) -> Seq<u8> {
        self.payload@
    }

    /// A run that will send `payload`, with nothing known of the modem's session; the store's
    /// status shows it running.
    pub fn start(payload: Vec<u8>, store: &mut ResultStore) -> (r: Workflow)
        requires
            old(store).wf(),
        ensures
            r.stage() == Stage::Running(Step::CheckingSim),
            r.session() == (Session { context_active: Belief::Unknown, socket_open: Belief::Unknown }),
            r.payload() == payload@,
            !r.notice_seen(),
            final(store).wf(),
            final(store).status() == status_label(Stage::Running(Step::CheckingSim)),
            final(store).log_history() == old(store).log_history(),
            final(store).log_capacity() == old(store).log_capacity(),
            final(store).tx() == old(store).tx(),
            final(store).rx() == old(store).rx(),
    {
        let stage = Stage::Running(Step::CheckingSim);
        let label = label_of(stage);
        store.set_status(label.as_slice());
        Workflow {
            stage,
            session: Session { context_active: Belief::Unknown, socket_open: Belief::Unknown },
            payload,
            notice_seen: false,
        }
    }

    pub fn current(&self) -> (r: Stage)
        ensures
            r == self.stage(),
    {
        self.stage
    }

    pub fn beliefs(&self) -> (r: Session)
        ensures
            r == self.session(),
    {
        self.session
    }

    /// The command of the current step, while the run is going.
    pub fn command(&self) -> (r: Option<Command>)
        ensures
            match self.stage() {
                Stage::Running(s) => r matches Some(c) && is_step_command(c, s, self.payload()),
                _ => r is None,
            },
    {
        match self.stage {
            Stage::Running(s) => Some(command_for(s, &self.payload)),
            _ => None,
        }
    }

    /// The current step's command ended with `outcome`: move to the next stage, record the
    /// transition in the log and show the new stage in the status label. A receive notice that
    /// arrived in any reply is remembered, so that the run does not wait for it again.
    pub fn on_outcome(&mut self, outcome: &Outcome, store: &mut ResultStore)
        requires
            old(self).stage() is Running,
            old(store).wf(),
        ensures
            ({
                let s = old(self).stage()->Running_0;
                let v = verdict_of(s, *outcome);
                let seen = old(self).notice_seen() || notice_in(*outcome);
                let st = stage_after(s, v, seen);
                &&& final(self).notice_seen() == seen
                &&& final(self).stage() == st
                &&& final(self).session() == next_session(old(self).session(), s, v)
                &&& final(self).payload() == old(self).payload()
                &&& final(store).wf()
                &&& final(store).log_history() == old(store).log_history() + trace_line(s, v)
                    + failure_detail(st, *outcome)
                &&& final(store).status() == status_label(st)
            }),
            final(store).log_capacity() == old(store).log_capacity(),
            final(store).tx() == old(store).tx(),
            final(store).rx() == old(store).rx(),
    {
        let s = match self.stage {
            Stage::Running(s) => s,
            _ => {
                proof {
                    assert(false);
                }
                Step::Closed
            },
        };
        let v = verdict(s, outcome);
        self.notice_seen = self.notice_seen || holds_notice(outcome);
        let next = advance(s, v);
        let st = if self.notice_seen && next == Stage::Running(Step::AwaitingReceiveNotice) {
            Stage::Running(Step::ReadingPayload)
        } else {
            next
        };
        self.session = match v {
            Verdict::Success => match s {
                Step::ActivatingContext | Step::QueryingContext => Session {
                    context_active: Belief::Yes,
                    socket_open: self.session.socket_open,
                },
                Step::OpeningSocket => Session {
                    context_active: self.session.context_active,
                    socket_open: Belief::Yes,
                },
                Step::Closed => Session {
                    context_active: self.session.context_active,
                    socket_open: Belief::No,
                },
                _ => self.session,
            },
            _ => self.session,
        };
        self.stage = st;
        let mut line = name_of(s);
        push_all(&mut line, bytes_of(" -> ").as_slice());
        push_all(&mut line, verdict_text(v).as_slice());
        push_all(&mut line, bytes_of("\n").as_slice());
        let ghost h0 = store.log_history();
        store.append_log(line.as_slice());
        match (st, outcome) {
            (Stage::Failed(_, _), Outcome::Matched { captured, .. }) => {
                let mut detail = vstd::slice::slice_to_vec(captured.as_slice());
                push_all(&mut detail, bytes_of("\n").as_slice());
                store.append_log(detail.as_slice());
                proof {
                    assert(store.log_history() =~= h0 + trace_line(s, v) + failure_detail(st, *outcome));
                }
            },
            _ => {
                proof {
                    assert(store.log_history() =~= h0 + trace_line(s, v) + failure_detail(st, *outcome));
                }
            },
        }
        let label = label_of(st);
        store.set_status(label.as_slice());
    }

    /// The best-effort cleanup a failed run issues: closing the socket. Its outcome is not
    /// read; a completed run closed its socket in its last step.
    pub fn cleanup_command(&self) -> (r: Option<Command>)
        ensures
            match self.stage() {
                Stage::Failed(_, _) => r matches Some(c) && is_step_command(c, Step::Closed, self.payload()),
                _ => r is None,
            },
    {
        match self.stage {
            Stage::Failed(_, _) => Some(command_for(Step::Closed, &self.payload)),
            _ => None,
        }
    }
}

/// Activation that reports failure or times out is not the end: the status query follows, and
/// the run goes on to open its socket, believing the context active, exactly when the query's
/// reply shows the context already active, whichever token ended that reply. Any other reply,
/// and no reply, fails the run there.
pub proof fn lemma_activation_recovery(activation: Outcome, query: Outcome, b: Session, seen: bool)
    requires
        activation is Timeout || (activation matches Outcome::Matched { kind, .. } && kind
            == Kind::Failure),
    ensures
        stage_after(Step::ActivatingContext, verdict_of(Step::ActivatingContext, activation), seen)
            == Stage::Running(Step::QueryingContext),
        ({
            let v = verdict_of(Step::QueryingContext, query);
            let recovered = (query matches Outcome::Matched { captured, .. }
                && context_reported_active(captured@));
            &&& recovered ==> stage_after(Step::QueryingContext, v, seen) == Stage::Running(
                Step::OpeningSocket,
            ) && next_session(b, Step::QueryingContext, v).context_active == Belief::Yes
            &&& !recovered ==> stage_after(Step::QueryingContext, v, seen) is Failed
                && stage_after(Step::QueryingContext, v, seen)->Failed_0 == Step::QueryingContext
        }),
{
}

/// An open result with a non-zero error code fails the run at the socket step, whatever else
/// the reply holds (an `OK` included).
pub proof fn lemma_open_error_fails(o: Outcome, context_id: nat, code: nat)
    requires
        o matches Outcome::Matched { captured, .. } && tagged_pair(captured@, open_tag()) == Some(
            (context_id, code),
        ),
        code != 0,
    ensures
        verdict_of(Step::OpeningSocket, o) == Verdict::Failure,
        forall|seen: bool|
            stage_after(Step::OpeningSocket, verdict_of(Step::OpeningSocket, o), seen)
                == Stage::Failed(Step::OpeningSocket, Cause::Rejected),
{
}

} // verus!
