use modem_gateway::buffer::{BoundedText, MARKER_LEN};
use modem_gateway::dispatcher::{adhoc_command, finish_adhoc, Dispatcher, Trigger};
use modem_gateway::matcher::{
    classify, Command, Exchange, Kind, LineAccumulator, Outcome, Reaction, Token,
};
use modem_gateway::store::ResultStore;
use modem_gateway::text::{contains, find, format_decimal, parse_field};
use modem_gateway::workflow::{
    advance, command_for, context_active, label_of, socket_opened, verdict, Belief, Cause, Stage,
    Step, Verdict, Workflow,
};

const MARKER: &[u8] = b"...[truncated]...\n";

fn tok(text: &str, kind: Kind) -> Token {
    Token { text: text.as_bytes().to_vec(), kind, whole_line: false }
}

fn ok_error_command(line: &str) -> Command {
    Command {
        line: line.as_bytes().to_vec(),
        tokens: vec![tok("OK", Kind::Success), tok("ERROR", Kind::Failure)],
        prompt: None,
        payload: None,
        timeout_ms: 1000,
        max_reads: 10,
    }
}

fn matched(kind: Kind, text: &str) -> Outcome {
    Outcome::Matched { token: 0, kind, captured: text.as_bytes().to_vec(), truncated: false }
}

fn run_to(step: Step) -> (Workflow, ResultStore) {
    let mut store = ResultStore::new(2048);
    let mut wf = Workflow::start(b"GET / HTTP/1.1\r\n\r\n".to_vec(), &mut store);
    while wf.current() != Stage::Running(step) {
        let reply = match wf.current() {
            Stage::Running(Step::OpeningSocket) => "+QIOPEN: 0,0\r\n",
            Stage::Running(_) => "OK\r\n",
            other => panic!("run ended early at {:?}", other),
        };
        wf.on_outcome(&matched(Kind::Success, reply), &mut store);
    }
    (wf, store)
}

// Text primitives.

#[test]
fn find_returns_first_offset() {
    assert_eq!(find(b"xxOKyyOK", b"OK"), Some(2));
    assert_eq!(find(b"xxOKyyOK", b"NO"), None);
    assert_eq!(find(b"O", b"OK"), None);
    assert!(contains(b"\r\nOK\r\n", b"OK"));
    assert!(!contains(b"\r\nO", b"OK"));
}

#[test]
fn parse_field_reads_digits() {
    assert_eq!(parse_field(b"+X: 12,4", 4), Some((12, 6)));
    assert_eq!(parse_field(b"abc", 0), None);
    assert_eq!(parse_field(b"1234567890", 0), None);
    assert_eq!(parse_field(b"123456789", 0), Some((123456789, 9)));
    assert_eq!(parse_field(b"5", 3), None);
}

#[test]
fn format_decimal_writes_digits() {
    assert_eq!(format_decimal(0), b"0".to_vec());
    assert_eq!(format_decimal(7), b"7".to_vec());
    assert_eq!(format_decimal(59), b"59".to_vec());
    assert_eq!(format_decimal(1500), b"1500".to_vec());
}

// Bounded buffer and line accumulator.

#[test]
fn buffer_keeps_everything_within_capacity() {
    let mut b = BoundedText::new(40);
    b.append(b"hello ");
    b.append(b"world");
    assert_eq!(b.as_bytes(), b"hello world");
    assert!(!b.is_truncated());
}

#[test]
fn accumulator_overflow_keeps_latest_and_marks() {
    let cap = 30;
    let mut acc = LineAccumulator::new(cap);
    let fed: Vec<u8> = (0..100u8).map(|i| b'a' + (i % 26)).collect();
    for chunk in fed.chunks(7) {
        acc.feed(chunk);
        assert!(acc.contents_bytes().len() <= cap);
    }
    assert!(acc.is_truncated());
    let c = acc.contents_bytes();
    assert_eq!(c.len(), cap);
    assert_eq!(&c[..MARKER_LEN], MARKER);
    assert_eq!(&c[MARKER_LEN..], &fed[fed.len() - (cap - MARKER_LEN)..]);
}

#[test]
fn accumulator_drops_malformed_chunk() {
    let mut acc = LineAccumulator::new(64);
    acc.feed(b"AB");
    acc.feed(&[0xff, 0xfe, b'C']);
    acc.feed(b"OK");
    assert_eq!(acc.contents_bytes(), b"ABOK");
    assert_eq!(acc.find(b"OK"), Some(2));
}

#[test]
fn log_keeps_last_bytes_of_150() {
    let mut store = ResultStore::new(100);
    let text: Vec<u8> = (0..150u32).map(|i| b'0' + (i % 10) as u8).collect();
    store.append_log(&text);
    let snap = store.snapshot();
    assert!(snap.log_truncated);
    assert_eq!(snap.log.len(), 100);
    assert_eq!(&snap.log[..MARKER_LEN], MARKER);
    assert_eq!(&snap.log[MARKER_LEN..], &text[150 - (100 - MARKER_LEN)..]);
}

// Matcher.

#[test]
fn scenario_at_ok() {
    let (mut ex, first) = Exchange::begin(adhoc_command(b"AT"), 0, 256);
    assert_eq!(first, b"AT\r\n".to_vec());
    match ex.on_read(b"\r\nOK\r\n", 10) {
        Reaction::Done(Outcome::Matched { token, kind, captured, truncated }) => {
            assert_eq!(token, 0);
            assert_eq!(kind, Kind::Success);
            assert!(contains(&captured, b"OK"));
            assert!(!truncated);
        }
        other => panic!("unexpected {:?}", other),
    }
}

#[test]
fn success_before_failure_wins() {
    let toks = vec![tok("OK", Kind::Success), tok("ERROR", Kind::Failure)];
    assert_eq!(classify(b"OK\r\nERROR\r\n", &toks), Some(0));
    assert_eq!(classify(b"ERROR\r\nOK\r\n", &toks), Some(1));
    assert_eq!(classify(b"nothing", &toks), None);
}

#[test]
fn earlier_completion_beats_token_order() {
    let toks = vec![tok("SEND OK", Kind::Success), tok("OK", Kind::Success)];
    assert_eq!(classify(b"xx OK", &toks), Some(1));
    assert_eq!(classify(b"SEND OK", &toks), Some(0));
}

#[test]
fn whole_line_token_waits_for_newline() {
    let toks = vec![
        Token { text: b"+QIOPEN: ".to_vec(), kind: Kind::Success, whole_line: true },
        tok("ERROR", Kind::Failure),
    ];
    assert_eq!(classify(b"+QIOPEN: 0,", &toks), None);
    assert_eq!(classify(b"+QIOPEN: 0,4\r\n", &toks), Some(0));
}

#[test]
fn split_token_across_chunks_matches() {
    let (mut ex, _) = Exchange::begin(ok_error_command("AT"), 0, 256);
    assert!(matches!(ex.on_read(b"\r\nO", 5), Reaction::Wait));
    assert!(matches!(
        ex.on_read(b"K\r\n", 6),
        Reaction::Done(Outcome::Matched { kind: Kind::Success, .. })
    ));
}

#[test]
fn no_token_before_deadline_times_out() {
    let (mut ex, _) = Exchange::begin(ok_error_command("AT"), 100, 256);
    assert!(matches!(ex.on_read(b"\r\nO", 500), Reaction::Wait));
    assert!(matches!(ex.on_read(b"", 1099), Reaction::Wait));
    assert!(matches!(ex.on_read(b"", 1100), Reaction::Done(Outcome::Timeout)));
}

#[test]
fn read_limit_times_out() {
    let mut cmd = ok_error_command("AT");
    cmd.max_reads = 3;
    let (mut ex, _) = Exchange::begin(cmd, 0, 256);
    assert!(matches!(ex.on_read(b"", 1), Reaction::Wait));
    assert!(matches!(ex.on_read(b"", 2), Reaction::Wait));
    assert!(matches!(ex.on_read(b"", 3), Reaction::Done(Outcome::Timeout)));
}

#[test]
fn fault_ends_with_transport_error() {
    let (mut ex, _) = Exchange::begin(ok_error_command("AT"), 0, 256);
    assert!(matches!(ex.on_fault(), Outcome::TransportError));
}

#[test]
fn prompt_then_payload() {
    let mut cmd = ok_error_command("AT+QISEND=0,3");
    cmd.tokens = vec![tok("SEND OK", Kind::Success), tok("SEND FAIL", Kind::Failure)];
    cmd.prompt = Some(b">".to_vec());
    cmd.payload = Some(b"abc".to_vec());
    let (mut ex, first) = Exchange::begin(cmd, 0, 256);
    assert_eq!(first, b"AT+QISEND=0,3\r\n".to_vec());
    assert!(matches!(ex.on_read(b"\r\n", 1), Reaction::Wait));
    match ex.on_read(b"> ", 2) {
        Reaction::Send(bytes) => assert_eq!(bytes, b"abc".to_vec()),
        other => panic!("unexpected {:?}", other),
    }
    assert!(matches!(
        ex.on_read(b"\r\nSEND OK\r\n", 3),
        Reaction::Done(Outcome::Matched { token: 0, kind: Kind::Success, .. })
    ));
}

#[test]
fn missing_prompt_times_out() {
    let mut cmd = ok_error_command("AT+QISEND=0,3");
    cmd.prompt = Some(b">".to_vec());
    cmd.payload = Some(b"abc".to_vec());
    cmd.max_reads = 2;
    let (mut ex, _) = Exchange::begin(cmd, 0, 256);
    assert!(matches!(ex.on_read(b"ERROR\r\n", 1), Reaction::Wait));
    assert!(matches!(ex.on_read(b"", 2), Reaction::Done(Outcome::Timeout)));
}

#[test]
fn payload_without_prompt_goes_with_line() {
    let mut cmd = ok_error_command("AT+X");
    cmd.payload = Some(b"\x1a".to_vec());
    let (_, first) = Exchange::begin(cmd, 0, 256);
    assert_eq!(first, b"AT+X\r\n\x1a".to_vec());
}

#[test]
fn listening_command_sends_nothing() {
    let (_, first) = Exchange::begin(ok_error_command(""), 0, 256);
    assert!(first.is_empty());
}

#[test]
fn truncated_capture_is_flagged() {
    let (mut ex, _) = Exchange::begin(ok_error_command("AT"), 0, 20);
    assert!(matches!(ex.on_read(b"0123456789012345678901234", 1), Reaction::Wait));
    match ex.on_read(b"OK", 2) {
        Reaction::Done(Outcome::Matched { captured, truncated, .. }) => {
            assert!(truncated);
            assert_eq!(captured, b"34OK".to_vec());
        }
        other => panic!("unexpected {:?}", other),
    }
}

#[test]
fn token_early_in_large_read_is_found() {
    let (mut ex, _) = Exchange::begin(ok_error_command("AT"), 0, 19);
    let mut read = b"OK".to_vec();
    read.extend_from_slice(&[b'z'; 18]);
    match ex.on_read(&read, 5000) {
        Reaction::Done(Outcome::Matched { token, kind, captured, truncated }) => {
            assert_eq!(token, 0);
            assert_eq!(kind, Kind::Success);
            assert_eq!(captured, read);
            assert!(!truncated);
        }
        other => panic!("unexpected {:?}", other),
    }
}

fn dots_command() -> Command {
    Command {
        line: b"AT".to_vec(),
        tokens: vec![tok("...", Kind::Success), tok("ERROR", Kind::Failure)],
        prompt: None,
        payload: None,
        timeout_ms: 1000,
        max_reads: 10,
    }
}

#[test]
fn marker_is_never_matched() {
    let (mut ex, _) = Exchange::begin(dots_command(), 0, 19);
    assert!(matches!(ex.on_read(&[b'x'; 20], 1), Reaction::Wait));
    assert!(matches!(ex.on_read(b"", 2), Reaction::Wait));
    assert!(matches!(ex.on_read(b"", 1000), Reaction::Done(Outcome::Timeout)));
}

#[test]
fn partial_token_after_eviction_times_out() {
    let (mut ex, _) = Exchange::begin(dots_command(), 0, 19);
    assert!(matches!(ex.on_read(&[b'x'; 19], 1), Reaction::Wait));
    assert!(matches!(ex.on_read(b".", 2), Reaction::Wait));
    assert!(matches!(ex.on_read(b"", 1000), Reaction::Done(Outcome::Timeout)));
}

// Workflow.

#[test]
fn open_result_codes() {
    assert!(socket_opened(b"\r\nOK\r\n\r\n+QIOPEN: 0,0\r\n"));
    assert!(!socket_opened(b"\r\nOK\r\n\r\n+QIOPEN: 0,4\r\n"));
    assert!(!socket_opened(b"OK"));
    assert!(!socket_opened(b"+QIOPEN: 0,x"));
}

#[test]
fn scenario_open_socket_results() {
    let (mut ex, first) = Exchange::begin(command_for(Step::OpeningSocket, &Vec::new()), 0, 512);
    assert_eq!(first, b"AT+QIOPEN=1,0,\"TCP\",\"httpbin.org\",80,0,1\r\n".to_vec());
    let out = match ex.on_read(b"+QIOPEN: 0,0\r\n", 1) {
        Reaction::Done(o) => o,
        other => panic!("unexpected {:?}", other),
    };
    assert_eq!(verdict(Step::OpeningSocket, &out), Verdict::Success);

    let (mut ex, _) = Exchange::begin(command_for(Step::OpeningSocket, &Vec::new()), 0, 512);
    let out = match ex.on_read(b"+QIOPEN: 0,4\r\n", 1) {
        Reaction::Done(o) => o,
        other => panic!("unexpected {:?}", other),
    };
    assert!(matches!(out, Outcome::Matched { kind: Kind::Success, .. }));
    assert_eq!(verdict(Step::OpeningSocket, &out), Verdict::Failure);
}

#[test]
fn open_error_with_unrelated_ok_fails() {
    let (mut wf, mut store) = run_to(Step::OpeningSocket);
    wf.on_outcome(&matched(Kind::Success, "\r\nOK\r\n\r\n+QIOPEN: 0,563\r\n"), &mut store);
    assert_eq!(wf.current(), Stage::Failed(Step::OpeningSocket, Cause::Rejected));
    assert_eq!(wf.beliefs().socket_open, Belief::Unknown);
    assert!(wf.cleanup_command().is_some());
}

#[test]
fn scenario_activation_recovery() {
    let (mut wf, mut store) = run_to(Step::ActivatingContext);
    let cmd = wf.command().unwrap();
    let (mut ex, first) = Exchange::begin(cmd, 0, 512);
    assert_eq!(first, b"AT+QIACT=1\r\n".to_vec());
    let out = match ex.on_read(b"ERROR\r\n", 1) {
        Reaction::Done(o) => o,
        other => panic!("unexpected {:?}", other),
    };
    wf.on_outcome(&out, &mut store);
    assert_eq!(wf.current(), Stage::Running(Step::QueryingContext));

    let (mut ex, first) = Exchange::begin(wf.command().unwrap(), 0, 512);
    assert_eq!(first, b"AT+QIACT?\r\n".to_vec());
    let out = match ex.on_read(b"\r\n+QIACT: 1,1,\"10.0.0.5\"\r\n\r\nOK\r\n", 1) {
        Reaction::Done(o) => o,
        other => panic!("unexpected {:?}", other),
    };
    wf.on_outcome(&out, &mut store);
    assert_eq!(wf.current(), Stage::Running(Step::OpeningSocket));
    assert_eq!(wf.beliefs().context_active, Belief::Yes);
}

#[test]
fn activation_recovery_reads_text_not_token() {
    let (mut wf, mut store) = run_to(Step::ActivatingContext);
    wf.on_outcome(&matched(Kind::Failure, "ERROR\r\n"), &mut store);
    assert_eq!(wf.current(), Stage::Running(Step::QueryingContext));
    wf.on_outcome(&matched(Kind::Failure, "+QIACT: 1,1,1,\"10.0.0.5\"\r\nERROR\r\n"), &mut store);
    assert_eq!(wf.current(), Stage::Running(Step::OpeningSocket));
    assert_eq!(wf.beliefs().context_active, Belief::Yes);
    assert_eq!(verdict(Step::QueryingContext, &matched(Kind::Success, "OK\r\n")), Verdict::Failure);
}

#[test]
fn activation_recovery_fails_when_inactive() {
    let (mut wf, mut store) = run_to(Step::ActivatingContext);
    wf.on_outcome(&Outcome::Timeout, &mut store);
    assert_eq!(wf.current(), Stage::Running(Step::QueryingContext));
    wf.on_outcome(&matched(Kind::Success, "+QIACT: 1,0\r\nOK\r\n"), &mut store);
    assert_eq!(wf.current(), Stage::Failed(Step::QueryingContext, Cause::Rejected));
    assert!(context_active(b"+QIACT: 1,1,1,\"10.0.0.5\""));
    assert!(!context_active(b"OK"));
}

#[test]
fn early_receive_notice_is_not_awaited_again() {
    let (mut wf, mut store) = run_to(Step::SendingPayload);
    wf.on_outcome(&matched(Kind::Success, "+QISEND: 59,59,0\r\n\r\nOK\r\n\r\n+QIURC: \"recv\",0\r\n"), &mut store);
    assert_eq!(wf.current(), Stage::Running(Step::ReadingPayload));
}

#[test]
fn receive_notice_awaited_when_not_seen() {
    let (mut wf, mut store) = run_to(Step::SendingPayload);
    wf.on_outcome(&matched(Kind::Success, "+QISEND: 59,59,0\r\n\r\nOK\r\n"), &mut store);
    assert_eq!(wf.current(), Stage::Running(Step::AwaitingReceiveNotice));
}

#[test]
fn failures_are_terminal_with_cause() {
    assert_eq!(advance(Step::Attaching, Verdict::Timeout), Stage::Failed(Step::Attaching, Cause::NoResponse));
    assert_eq!(advance(Step::Attaching, Verdict::Failure), Stage::Failed(Step::Attaching, Cause::Rejected));
    assert_eq!(advance(Step::Attaching, Verdict::Fault), Stage::Failed(Step::Attaching, Cause::LinkFault));
    assert_eq!(advance(Step::ActivatingContext, Verdict::Fault), Stage::Failed(Step::ActivatingContext, Cause::LinkFault));
    assert_eq!(advance(Step::Closed, Verdict::Failure), Stage::Completed);
}

#[test]
fn full_run_completes_and_logs_path() {
    let mut store = ResultStore::new(2048);
    let mut wf = Workflow::start(b"GET /get HTTP/1.1\r\n\r\n".to_vec(), &mut store);
    assert_eq!(store.snapshot().status, b"Running: CheckingSim".to_vec());
    let mut steps = 0;
    while let Some(cmd) = wf.command() {
        let reply: &[u8] = match wf.current() {
            Stage::Running(Step::CheckingSim) => b"+CPIN: READY\r\n",
            Stage::Running(Step::OpeningSocket) => b"+QIOPEN: 0,0\r\n",
            Stage::Running(Step::AwaitingSendPrompt) => b"SEND OK\r\n",
            Stage::Running(Step::AwaitingReceiveNotice) => b"+QIURC: \"recv\",0\r\n",
            _ => b"\r\nOK\r\n",
        };
        let (mut ex, _) = Exchange::begin(cmd, 0, 512);
        let mut r = ex.on_read(b"> ", 1);
        if let Reaction::Send(_) = r {
            r = ex.on_read(reply, 2);
        } else if let Reaction::Wait = r {
            r = ex.on_read(reply, 2);
        }
        match r {
            Reaction::Done(o) => wf.on_outcome(&o, &mut store),
            other => panic!("unexpected {:?}", other),
        }
        steps += 1;
    }
    assert_eq!(steps, 11);
    assert_eq!(wf.current(), Stage::Completed);
    assert_eq!(wf.beliefs().socket_open, Belief::No);
    assert!(wf.cleanup_command().is_none());
    let snap = store.snapshot();
    assert_eq!(snap.status, b"Workflow complete".to_vec());
    assert!(contains(&snap.log, b"CheckingSim -> ok\n"));
    assert!(contains(&snap.log, b"Closed -> ok\n"));
}

#[test]
fn send_command_names_payload_length() {
    let payload = b"GET /get HTTP/1.1\r\nHost: httpbin.org\r\nConnection: close\r\n\r\n".to_vec();
    let cmd = command_for(Step::AwaitingSendPrompt, &payload);
    assert_eq!(cmd.line, b"AT+QISEND=0,59".to_vec());
    assert_eq!(cmd.prompt, Some(b">".to_vec()));
    assert_eq!(cmd.payload, Some(payload));
    assert_eq!(command_for(Step::AwaitingReceiveNotice, &Vec::new()).line, Vec::<u8>::new());
}

#[test]
fn failure_surfaces_reply_and_distinct_label() {
    let (mut wf, mut store) = run_to(Step::Attaching);
    wf.on_outcome(&matched(Kind::Failure, "+CME ERROR: 30"), &mut store);
    let snap = store.snapshot();
    assert_eq!(snap.status, b"ERROR: rejected at Attaching".to_vec());
    assert!(contains(&snap.log, b"Attaching -> failed\n+CME ERROR: 30\n"));
    assert_eq!(label_of(Stage::Failed(Step::Attaching, Cause::NoResponse)), b"ERROR: no response at Attaching".to_vec());
}

// Result store and dispatcher.

#[test]
fn store_counts_and_mirrors() {
    let mut store = ResultStore::new(64);
    assert_eq!(store.snapshot().status, b"Initializing...".to_vec());
    store.count_sent(4);
    store.record_received(b"\r\nOK\r\n");
    store.record_received(&[0xff]);
    store.set_status(b"");
    let snap = store.snapshot();
    assert_eq!(snap.tx_count, 4);
    assert_eq!(snap.rx_count, 7);
    assert_eq!(snap.log, b"\r\nOK\r\n".to_vec());
    assert_eq!(snap.status, b"Initializing...".to_vec());
}

#[test]
fn submit_rejected_while_in_flight() {
    let mut d = Dispatcher::new();
    assert!(d.submit(Trigger::RunWorkflow));
    assert!(!d.submit(Trigger::AdHocCommand(b"AT".to_vec())));
    assert!(matches!(d.take(), Some(Trigger::RunWorkflow)));
    assert!(d.is_in_flight());
    assert!(!d.submit(Trigger::RunWorkflow));
    d.complete();
    assert!(!d.is_in_flight());
    assert!(d.submit(Trigger::AdHocCommand(b"AT".to_vec())));
    assert!(d.take().is_some());
    assert!(d.take().is_none());
}

#[test]
fn adhoc_command_is_sanitized() {
    let cmd = adhoc_command(b"AT+CSQ\r\n\x07");
    assert_eq!(cmd.line, b"AT+CSQ".to_vec());
    let (_, first) = Exchange::begin(cmd, 0, 64);
    assert_eq!(first, b"AT+CSQ\r\n".to_vec());
}

#[test]
fn adhoc_labels_differ() {
    let mut store = ResultStore::new(64);
    finish_adhoc(&Outcome::Timeout, &mut store);
    assert_eq!(store.snapshot().status, b"ERROR: no response".to_vec());
    finish_adhoc(&matched(Kind::Failure, "ERROR"), &mut store);
    assert_eq!(store.snapshot().status, b"ERROR: command rejected".to_vec());
    finish_adhoc(&matched(Kind::Success, "OK"), &mut store);
    assert_eq!(store.snapshot().status, b"Command OK".to_vec());
    finish_adhoc(&Outcome::TransportError, &mut store);
    assert_eq!(store.snapshot().status, b"ERROR: serial fault".to_vec());
}

#[test]
fn payload_read_ends_on_ok_line_only() {
    let (mut ex, first) = Exchange::begin(command_for(Step::ReadingPayload, &Vec::new()), 0, 512);
    assert_eq!(first, b"AT+QIRD=0,1500\r\n".to_vec());
    assert!(matches!(ex.on_read(b"+QIRD: 17\r\nHTTP/1.1 200 OK\r\n", 1), Reaction::Wait));
    assert!(matches!(
        ex.on_read(b"\r\nOK\r\n", 2),
        Reaction::Done(Outcome::Matched { token: 0, kind: Kind::Success, .. })
    ));
}
