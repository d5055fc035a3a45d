use shell_harness::protocol::{Elapsed, Request, Response};
use shell_harness::session::{Action, Event, Phase, SessionManager, WaitOutcome};

fn line(command: &str, timeout: Option<f64>) -> Event<u32, f64> {
    Event::Line(Request { command: command.to_string(), timeout_seconds: timeout })
}

fn expect_spawn(a: Action<u32, f64>) -> f64 {
    match a {
        Action::Spawn(t) => t,
        _ => panic!("expected a spawn"),
    }
}

fn expect_send(a: Action<u32, f64>) -> (u32, String) {
    match a {
        Action::Send(s, l) => (s, l),
        _ => panic!("expected a send"),
    }
}

fn expect_wait(a: Action<u32, f64>) -> (u32, f64) {
    match a {
        Action::Wait(s, t) => (s, t),
        _ => panic!("expected a wait"),
    }
}

fn expect_respond(a: Action<u32, f64>) -> Response<f64> {
    match a {
        Action::Respond(r) => r,
        _ => panic!("expected a response"),
    }
}

fn expect_next(a: Action<u32, f64>) {
    assert!(matches!(a, Action::NextLine));
}

/// Runs one request against a held or fresh session up to the wait.
fn run_to_wait(m: &mut SessionManager<u32, f64>, command: &str, timeout: Option<f64>, fresh: u32) -> u32 {
    let a = m.step(line(command, timeout));
    let (s, l) = match a {
        Action::Spawn(_) => expect_send(m.step(Event::Spawned(Ok(fresh)))),
        other => expect_send(other),
    };
    assert_eq!(l, format!("(eval '{}')", command));
    let (s2, _) = expect_wait(m.step(Event::Sent(s, Ok(()))));
    s2
}

#[test]
fn basic_request() {
    let mut m: SessionManager<u32, f64> = SessionManager::new(30.0);
    assert_eq!(expect_spawn(m.step(line("echo hi", None))), 30.0);
    assert_eq!(m.phase(), Phase::Spawning);
    let (s, l) = expect_send(m.step(Event::Spawned(Ok(7))));
    assert_eq!(s, 7);
    assert_eq!(l, "(eval 'echo hi')");
    assert_eq!(expect_wait(m.step(Event::Sent(7, Ok(())))), (7, 30.0));
    let r = expect_respond(m.step(Event::Waited(
        7,
        WaitOutcome::Prompt { output: "hi\r\n".to_string(), elapsed: 0.25 },
    )));
    assert!(r.output.contains("hi"));
    assert_eq!(r.output, "hi\r\n");
    assert!(r.execution_time == Elapsed::Of(0.25));
    assert_eq!(r.command, "echo hi");
    assert_eq!(r.timeout_seconds, 30.0);
    assert_eq!(m.phase(), Phase::Ready);
    assert!(m.has_session());
}

#[test]
fn output_is_sanitized() {
    let mut m: SessionManager<u32, f64> = SessionManager::new(30.0);
    let s = run_to_wait(&mut m, "ls --color", None, 1);
    let r = expect_respond(m.step(Event::Waited(
        s,
        WaitOutcome::Prompt { output: "\x1b[34mdir\x1b[0m\r\n".to_string(), elapsed: 0.1 },
    )));
    assert_eq!(r.output, "dir\r\n");
}

#[test]
fn timeout_then_fresh_session() {
    let mut m: SessionManager<u32, f64> = SessionManager::new(30.0);
    assert_eq!(expect_spawn(m.step(line("sleep 60", Some(1.0)))), 1.0);
    let (s, _) = expect_send(m.step(Event::Spawned(Ok(7))));
    let (s, t) = expect_wait(m.step(Event::Sent(s, Ok(()))));
    assert_eq!(t, 1.0);
    let a = m.step(Event::Waited(s, WaitOutcome::TimedOut { limit: format!("{:.1}", 1.0f64) }));
    match a {
        Action::RespondAndRenew(r, old, t) => {
            assert_eq!(r.output, "Command timed out after 1.0 seconds");
            assert!(r.execution_time == Elapsed::Of(1.0));
            assert_eq!(r.command, "sleep 60");
            assert_eq!(r.timeout_seconds, 1.0);
            assert_eq!(old, 7);
            assert_eq!(t, 1.0);
        },
        _ => panic!("expected a response and a renewal"),
    }
    assert_eq!(m.phase(), Phase::Renewing);
    assert!(!m.has_session());
    expect_next(m.step(Event::Spawned(Ok(8))));
    assert!(m.has_session());
    let (s, l) = expect_send(m.step(line("echo ok", None)));
    assert_eq!(s, 8);
    assert_eq!(l, "(eval 'echo ok')");
    let (s, _) = expect_wait(m.step(Event::Sent(s, Ok(()))));
    let r = expect_respond(m.step(Event::Waited(
        s,
        WaitOutcome::Prompt { output: "ok\r\n".to_string(), elapsed: 0.01 },
    )));
    assert_eq!(r.output, "ok\r\n");
    assert_eq!(r.timeout_seconds, 1.0);
}

#[test]
fn failed_renewal_retries_on_next_request() {
    let mut m: SessionManager<u32, f64> = SessionManager::new(2.0);
    let s = run_to_wait(&mut m, "sleep 9", None, 3);
    let a = m.step(Event::Waited(s, WaitOutcome::TimedOut { limit: "2.0".to_string() }));
    assert!(matches!(a, Action::RespondAndRenew(_, 3, _)));
    expect_next(m.step(Event::Spawned(Err("no pty".to_string()))));
    assert!(!m.has_session());
    assert_eq!(m.phase(), Phase::Ready);
    assert_eq!(expect_spawn(m.step(line("true", None))), 2.0);
}

#[test]
fn malformed_line() {
    let mut m: SessionManager<u32, f64> = SessionManager::new(30.0);
    let r = expect_respond(m.step(Event::Malformed("expected value at line 1 column 1".to_string())));
    assert_eq!(r.command, "");
    assert!(r.execution_time == Elapsed::Zero);
    assert!(r.output.starts_with("Invalid JSON: "));
    assert!(r.output.contains("expected value"));
    assert_eq!(r.timeout_seconds, 30.0);
    assert!(!m.has_session());
    assert_eq!(m.phase(), Phase::Ready);
}

#[test]
fn malformed_line_keeps_session() {
    let mut m: SessionManager<u32, f64> = SessionManager::new(30.0);
    let s = run_to_wait(&mut m, "true", None, 4);
    expect_respond(m.step(Event::Waited(
        s,
        WaitOutcome::Prompt { output: String::new(), elapsed: 0.0 },
    )));
    expect_respond(m.step(Event::Malformed("bad".to_string())));
    assert!(m.has_session());
    let (s, _) = expect_send(m.step(line("true", None)));
    assert_eq!(s, 4);
}

#[test]
fn send_failure_keeps_session() {
    let mut m: SessionManager<u32, f64> = SessionManager::new(30.0);
    expect_spawn(m.step(line("echo a", None)));
    let (s, _) = expect_send(m.step(Event::Spawned(Ok(5))));
    let r = expect_respond(m.step(Event::Sent(s, Err("Broken pipe".to_string()))));
    assert_eq!(r.output, "Error sending command: Broken pipe");
    assert!(r.execution_time == Elapsed::Zero);
    assert_eq!(r.command, "echo a");
    assert!(m.has_session());
    let (s, _) = expect_send(m.step(line("echo b", None)));
    assert_eq!(s, 5);
}

#[test]
fn read_failure_keeps_session() {
    let mut m: SessionManager<u32, f64> = SessionManager::new(30.0);
    let s = run_to_wait(&mut m, "exit", None, 6);
    let r = expect_respond(m.step(Event::Waited(
        s,
        WaitOutcome::Failed { detail: "EOF".to_string(), elapsed: 0.5 },
    )));
    assert_eq!(r.output, "Execution error: EOF");
    assert!(r.execution_time == Elapsed::Of(0.5));
    assert_eq!(r.command, "exit");
    assert!(m.has_session());
    assert_eq!(m.phase(), Phase::Ready);
}

#[test]
fn first_spawn_failure_stops() {
    let mut m: SessionManager<u32, f64> = SessionManager::new(30.0);
    expect_spawn(m.step(line("echo hi", None)));
    match m.step(Event::Spawned(Err("cannot fork".to_string()))) {
        Action::Abort(e) => assert_eq!(e, "cannot fork"),
        _ => panic!("expected an abort"),
    }
    assert_eq!(m.phase(), Phase::Stopped);
    expect_next(m.step(line("echo again", None)));
    assert_eq!(m.phase(), Phase::Stopped);
}

#[test]
fn unexpected_event_changes_nothing() {
    let mut m: SessionManager<u32, f64> = SessionManager::new(30.0);
    expect_next(m.step(Event::Sent(1, Ok(()))));
    expect_next(m.step(Event::Spawned(Ok(2))));
    assert!(!m.has_session());
    assert_eq!(m.phase(), Phase::Ready);
    assert_eq!(m.timeout(), 30.0);
}

#[test]
fn timeout_persists_until_changed() {
    let mut m: SessionManager<u32, f64> = SessionManager::new(30.0);
    let mut seen = Vec::new();
    let plan: [(&str, Option<f64>); 4] =
        [("a", None), ("b", Some(5.0)), ("c", None), ("d", Some(0.5))];
    for (i, (cmd, t)) in plan.iter().enumerate() {
        let s = run_to_wait(&mut m, cmd, *t, i as u32);
        let r = expect_respond(m.step(Event::Waited(
            s,
            WaitOutcome::Prompt { output: String::new(), elapsed: 0.0 },
        )));
        seen.push(r.timeout_seconds);
    }
    assert_eq!(seen, vec![30.0, 5.0, 5.0, 0.5]);
    assert_eq!(m.timeout(), 0.5);
}

#[test]
fn one_response_per_line_in_order() {
    let mut m: SessionManager<u32, f64> = SessionManager::new(30.0);
    let mut answered = Vec::new();
    for cmd in ["one", "two", "three"] {
        let mut a = m.step(line(cmd, None));
        let mut responses = 0;
        loop {
            a = match a {
                Action::NextLine => break,
                Action::Spawn(_) => m.step(Event::Spawned(Ok(1))),
                Action::Send(s, _) => m.step(Event::Sent(s, Ok(()))),
                Action::Wait(s, _) => m.step(Event::Waited(
                    s,
                    WaitOutcome::Prompt { output: cmd.to_string(), elapsed: 0.0 },
                )),
                Action::Respond(r) => {
                    responses += 1;
                    answered.push(r.command);
                    Action::NextLine
                },
                _ => panic!("unexpected action"),
            };
        }
        assert_eq!(responses, 1);
    }
    assert_eq!(answered, vec!["one", "two", "three"]);
}
