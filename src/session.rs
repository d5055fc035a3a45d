//! The session manager: the decisions of the request/response cycle, as a
//! state machine. The caller performs each action (spawning a shell, writing
//! to it, waiting for its prompt, writing a response) and hands back what
//! came of it as the next event. The shell session itself is handed out for
//! each action on it and handed back with the event, so there is never more
//! than one.
use vstd::prelude::*;
use crate::protocol::{
    Request, Response, Elapsed, invalid_request_message, send_error_message, exec_error_message,
    timed_out_message, invalid_request_text, send_error_text, exec_error_text, timed_out_text,
};
use crate::quote::{eval_command_line, eval_line};
use crate::sanitize::{strip_ansi_escape_codes, strip_escapes};

verus! {

/// Where the manager stands in the cycle of one request.
#[derive(PartialEq, Eq, Structural, Clone, Copy, Debug)]
pub enum Phase {
    /// Waiting for the next line.
    Ready,
    /// A shell is being started for the request in flight.
    Spawning,
    /// The command is being written to the shell.
    Sending,
    /// The shell's prompt is awaited.
    Waiting,
    /// After a timeout: a fresh shell is being started for later requests.
    Renewing,
    /// The first shell could not be started; nothing more is done.
    Stopped,
}

/// What a performed action came to.
pub enum Event<S, T> {
    /// A request line was read and parsed.
    Line(Request<T>),
    /// A line was read that is not a request; the text says why.
    Malformed(String),
    /// A shell was started, or could not be (the text says why).
    Spawned(Result<S, String>),
    /// The command was written, or could not be; the session comes back.
    Sent(S, Result<(), String>),
    /// The wait for the prompt ended; the session comes back.
    Waited(S, WaitOutcome<T>),
}

/// How a wait for the shell's prompt ended.
pub enum WaitOutcome<T> {
    /// The prompt came back after `output`, which excludes the prompt.
    Prompt { output: String, elapsed: T },
    /// The timeout passed first; `limit` is the timeout as shown to the
    /// caller, in seconds with one decimal.
    TimedOut { limit: String },
    /// Reading failed otherwise.
    Failed { detail: String, elapsed: T },
}

/// What the caller is to do next.
pub enum Action<S, T> {
    /// Read the next line.
    NextLine,
    /// Start a shell, bounding its start-up by the timeout.
    Spawn(T),
    /// Write the line to the shell.
    Send(S, String),
    /// Wait for the shell's prompt, at most the timeout.
    Wait(S, T),
    /// Write the response, then read the next line.
    Respond(Response<T>),
    /// Write the response, let the old session go without waiting for it,
    /// then start a fresh shell bounded by the timeout.
    RespondAndRenew(Response<T>, S, T),
    /// The first shell could not be started: stop with this error.
    Abort(String),
}

/// The timeout in force after a run of requests that each supplied a new
/// one or none: the last one supplied, or the initial one.
pub open spec fn effective_timeout<T>(initial: T, supplied: Seq<Option<T>>) -> T
    decreases supplied.len(),
{
    if supplied.len() == 0 {
        initial
    } else {
        match supplied.last() {
            Some(t) => t,
            None => effective_timeout(initial, supplied.drop_last()),
        }
    }
}

/// A response with these fields.
pub open spec fn is_response<T>(
    r: Response<T>,
    output: Seq<char>,
    time: Elapsed<T>,
    command: Seq<char>,
    timeout: T,
) -> bool {
    &&& r.output@ == output
    &&& r.execution_time == time
    &&& r.command@ == command
    &&& r.timeout_seconds == timeout
}

pub struct SessionManager<S, T> {
    timeout: T,
    session: Option<S>,
    phase: Phase,
    command: String,
    initial: Ghost<T>,
    received: Ghost<Seq<Seq<char>>>,
    answered: Ghost<Seq<Seq<char>>>,
    supplied: Ghost<Seq<Option<T>>>,
}

impl<S, T: Copy> SessionManager<S, T> {
    pub closed spec fn current_timeout(&self) -> T {
        self.timeout
    }

    /// The session held between requests, if any.
    pub closed spec fn current_session(&self) -> Option<S> {
        self.session
    }

    pub closed spec fn current_phase(&self) -> Phase {
        self.phase
    }

    /// The command of the request in flight.
    pub closed spec fn pending_command(&self) -> Seq<char> {
        self.command@
    }

    /// The timeout the manager was created with.
    pub closed spec fn initial_timeout(&self) -> T {
        self.initial@
    }

    /// The command of each line taken so far, in order (empty for a line
    /// that is not a request).
    pub closed spec fn received(&self) -> Seq<Seq<char>> {
        self.received@
    }

    /// The command echoed by each response given so far, in order.
    pub closed spec fn answered(&self) -> Seq<Seq<char>> {
        self.answered@
    }

    /// The timeout that each line taken so far supplied, if any.
    pub closed spec fn supplied(&self) -> Seq<Option<T>> {
        self.supplied@
    }

    /// Responses answer the lines in order; at most one line is in flight,
    /// and only outside `Ready` and `Renewing`; the session is held only
    /// between requests; the timeout is the last one supplied.
    pub closed spec fn wf(&self) -> bool {
        &&& self.supplied@.len() == self.received@.len()
        &&& self.timeout == effective_timeout(self.initial@, self.supplied@)
        &&& self.answered@.len() <= self.received@.len()
        &&& self.answered@ == self.received@.take(self.answered@.len() as int)
        &&& (self.phase == Phase::Ready || self.phase == Phase::Renewing)
            <==> self.answered@.len() == self.received@.len()
        &&& self.answered@.len() < self.received@.len() ==> (self.answered@.len() + 1
            == self.received@.len() && self.received@.last() == self.command@)
        &&& self.phase != Phase::Ready ==> self.session.is_none()
    }

    /// A manager with no shell yet, in force the given timeout.
    pub fn new(timeout: T) -> (m: Self)
        ensures
            m.wf(),
            m.current_timeout() == timeout,
            m.initial_timeout() == timeout,
            m.current_session().is_none(),
            m.current_phase() == Phase::Ready,
            m.received().len() == 0,
            m.answered().len() == 0,
    {
        let m = SessionManager {
            timeout,
            session: None,
            phase: Phase::Ready,
            command: String::new(),
            initial: Ghost(timeout),
            received: Ghost(Seq::empty()),
            answered: Ghost(Seq::empty()),
            supplied: Ghost(Seq::empty()),
        };
        assert(m.received@.take(0) =~= m.answered@);
        m
    }

    /// The timeout in force.
    pub fn timeout(&self) -> (t: T)
        ensures
            t == self.current_timeout(),
    {
        self.timeout
    }

    pub fn phase(&self) -> (p: Phase)
        ensures
            p == self.current_phase(),
    {
        self.phase
    }

    /// Whether a shell is held for the next request.
    pub fn has_session(&self) -> (b: bool)
        ensures
            b == self.current_session().is_some(),
    {
        self.session.is_some()
    }

    /// Everything but the session and the phase stays as it was.
    pub closed spec fn same_record(&self, o: &Self) -> bool {
        &&& self.timeout == o.timeout
        &&& self.command == o.command
        &&& self.initial == o.initial
        &&& self.received == o.received
        &&& self.answered == o.answered
        &&& self.supplied == o.supplied
    }

    /// The record of `o` with one more response given, for the request in
    /// flight.
    pub closed spec fn answered_one(&self, o: &Self) -> bool {
        &&& self.timeout == o.timeout
        &&& self.command == o.command
        &&& self.initial == o.initial
        &&& self.received == o.received
        &&& self.answered@ == o.answered@.push(o.command@)
        &&& self.supplied == o.supplied
    }

    /// Gives the response for the request in flight and moves to `next`,
    /// holding `session`.
    fn answer(&mut self, output: String, time: Elapsed<T>, next: Phase, session: Option<S>) -> (r:
        Response<T>)
        requires
            old(self).wf(),
            old(self).phase == Phase::Sending || old(self).phase == Phase::Waiting,
            next == Phase::Ready || (next == Phase::Renewing && session.is_none()),
        ensures
            final(self).wf(),
            final(self).answered_one(old(self)),
            final(self).phase == next,
            final(self).session == session,
            is_response(r, output@, time, old(self).command@, old(self).timeout),
    {
        let ghost n = self.answered@.len() as int;
        proof {
            assert(self.received@.take(n + 1) =~= self.received@.take(n).push(self.received@[n]));
        }
        self.answered = Ghost(self.answered@.push(self.command@));
        self.phase = next;
        self.session = session;
        Response {
            output,
            execution_time: time,
            command: self.command.clone(),
            timeout_seconds: self.timeout,
        }
    }

    /// Takes a request line: applies its timeout, then sends the command to
    /// the held shell or asks for one.
    fn take_request(&mut self, req: Request<T>) -> (a: Action<S, T>)
        requires
            old(self).wf(),
            old(self).phase == Phase::Ready,
        ensures
            final(self).wf(),
            final(self).taken(old(self), req.command@, req.timeout_seconds),
            final(self).answered() == old(self).answered(),
            final(self).pending_command() == req.command@,
            final(self).current_session().is_none(),
            match old(self).current_session() {
                Some(s) => {
                    &&& final(self).current_phase() == Phase::Sending
                    &&& a matches Action::Send(s2, line) && s2 == s && line@ == eval_line(req.command@)
                },
                None => {
                    &&& final(self).current_phase() == Phase::Spawning
                    &&& a matches Action::Spawn(t) && t == final(self).current_timeout()
                },
            },
    {
        let Request { command, timeout_seconds } = req;
        if let Some(t) = timeout_seconds {
            self.timeout = t;
        }
        self.received = Ghost(self.received@.push(command@));
        self.supplied = Ghost(self.supplied@.push(timeout_seconds));
        proof {
            assert(self.supplied@.drop_last() =~= old(self).supplied@);
            assert(self.received@.take(self.answered@.len() as int) =~= old(self).received@.take(
                self.answered@.len() as int,
            ));
        }
        let line = eval_command_line(command.as_str());
        self.command = command;
        match self.session.take() {
            Some(s) => {
                self.phase = Phase::Sending;
                Action::Send(s, line)
            },
            None => {
                self.phase = Phase::Spawning;
                Action::Spawn(self.timeout)
            },
        }
    }

    /// The record of `o` with one more line taken, which supplied `supplied`:
    /// the timeout is the one supplied, if any, else the one before.
    pub closed spec fn taken(&self, o: &Self, command: Seq<char>, supplied: Option<T>) -> bool {
        &&& self.timeout == match supplied {
            Some(t) => t,
            None => o.timeout,
        }
        &&& self.initial == o.initial
        &&& self.received@ == o.received@.push(command)
        &&& self.supplied@ == o.supplied@.push(supplied)
    }

    /// Answers a line that is not a request, without touching the session.
    fn reject_line(&mut self, detail: String) -> (a: Action<S, T>)
        requires
            old(self).wf(),
            old(self).phase == Phase::Ready,
        ensures
            final(self).wf(),
            final(self).taken(old(self), Seq::empty(), None),
            final(self).answered() == old(self).answered().push(Seq::empty()),
            final(self).current_phase() == Phase::Ready,
            final(self).current_session() == old(self).current_session(),
            a matches Action::Respond(r) && is_response(
                r,
                invalid_request_text(detail@),
                Elapsed::Zero,
                Seq::empty(),
                old(self).current_timeout(),
            ),
    {
        let output = invalid_request_message(detail.as_str());
        let command = String::new();
        self.received = Ghost(self.received@.push(command@));
        self.answered = Ghost(self.answered@.push(command@));
        self.supplied = Ghost(self.supplied@.push(None));
        proof {
            assert(self.supplied@.drop_last() =~= old(self).supplied@);
            assert(self.received@.take(self.answered@.len() as int) =~= self.answered@);
        }
        Action::Respond(
            Response {
                output,
                execution_time: Elapsed::Zero,
                command,
                timeout_seconds: self.timeout,
            },
        )
    }

    /// Whether `e` is an event that phase `p` awaits.
    pub open spec fn awaits(p: Phase, e: Event<S, T>) -> bool {
        match e {
            Event::Line(_) | Event::Malformed(_) => p == Phase::Ready,
            Event::Spawned(_) => p == Phase::Spawning || p == Phase::Renewing,
            Event::Sent(_, _) => p == Phase::Sending,
            Event::Waited(_, _) => p == Phase::Waiting,
        }
    }

    /// Decides what comes of `event` and what the caller does next.
    ///
    /// A request line sets the timeout if it supplies one, then has its
    /// command sent to the held shell, or a shell started first. A line that
    /// is not a request is answered at once. A failed first start stops the
    /// manager. A failed write or read is answered and the session kept. A
    /// timeout is answered with the timeout as the elapsed time; the session
    /// is let go and a fresh one started, and if that start fails the next
    /// request starts one. An event that the phase does not await changes
    /// nothing.
    pub fn step(&mut self, event: Event<S, T>) -> (a: Action<S, T>)
        requires
            old(self).wf(),
        ensures
            final(self).wf(),
            !Self::awaits(old(self).current_phase(), event) ==> (*final(self) == *old(self)
                && a matches Action::NextLine),
            old(self).current_phase() == Phase::Ready ==> match event {
                Event::Line(req) => {
                    &&& final(self).taken(old(self), req.command@, req.timeout_seconds)
                    &&& final(self).answered() == old(self).answered()
                    &&& final(self).pending_command() == req.command@
                    &&& final(self).current_session().is_none()
                    &&& match old(self).current_session() {
                        Some(s) => {
                            &&& final(self).current_phase() == Phase::Sending
                            &&& a matches Action::Send(s2, line) && s2 == s && line@ == eval_line(
                                req.command@,
                            )
                        },
                        None => {
                            &&& final(self).current_phase() == Phase::Spawning
                            &&& a matches Action::Spawn(t) && t == final(self).current_timeout()
                        },
                    }
                },
                Event::Malformed(detail) => {
                    &&& final(self).taken(old(self), Seq::empty(), None)
                    &&& final(self).answered() == old(self).answered().push(Seq::empty())
                    &&& final(self).current_phase() == Phase::Ready
                    &&& final(self).current_session() == old(self).current_session()
                    &&& a matches Action::Respond(r) && is_response(
                        r,
                        invalid_request_text(detail@),
                        Elapsed::Zero,
                        Seq::empty(),
                        old(self).current_timeout(),
                    )
                },
                _ => true,
            },
            old(self).current_phase() == Phase::Spawning ==> match event {
                Event::Spawned(Ok(s)) => {
                    &&& final(self).same_record(old(self))
                    &&& final(self).current_phase() == Phase::Sending
                    &&& final(self).current_session().is_none()
                    &&& a matches Action::Send(s2, line) && s2 == s && line@ == eval_line(
                        old(self).pending_command(),
                    )
                },
                Event::Spawned(Err(e)) => {
                    &&& final(self).same_record(old(self))
                    &&& final(self).current_phase() == Phase::Stopped
                    &&& final(self).current_session().is_none()
                    &&& a matches Action::Abort(e2) && e2@ == e@
                },
                _ => true,
            },
            old(self).current_phase() == Phase::Sending ==> match event {
                Event::Sent(s, Ok(())) => {
                    &&& final(self).same_record(old(self))
                    &&& final(self).current_phase() == Phase::Waiting
                    &&& final(self).current_session().is_none()
                    &&& a matches Action::Wait(s2, t) && s2 == s && t == old(self).current_timeout()
                },
                Event::Sent(s, Err(e)) => {
                    &&& final(self).answered_one(old(self))
                    &&& final(self).current_phase() == Phase::Ready
                    &&& final(self).current_session() == Some(s)
                    &&& a matches Action::Respond(r) && is_response(
                        r,
                        send_error_text(e@),
                        Elapsed::Zero,
                        old(self).pending_command(),
                        old(self).current_timeout(),
                    )
                },
                _ => true,
            },
            old(self).current_phase() == Phase::Waiting ==> match event {
                Event::Waited(s, WaitOutcome::Prompt { output, elapsed }) => {
                    &&& final(self).answered_one(old(self))
                    &&& final(self).current_phase() == Phase::Ready
                    &&& final(self).current_session() == Some(s)
                    &&& a matches Action::Respond(r) && is_response(
                        r,
                        strip_escapes(output@),
                        Elapsed::Of(elapsed),
                        old(self).pending_command(),
                        old(self).current_timeout(),
                    )
                },
                Event::Waited(s, WaitOutcome::TimedOut { limit }) => {
                    &&& final(self).answered_one(old(self))
                    &&& final(self).current_phase() == Phase::Renewing
                    &&& final(self).current_session().is_none()
                    &&& a matches Action::RespondAndRenew(r, s2, t) && s2 == s && t
                        == old(self).current_timeout() && is_response(
                        r,
                        timed_out_text(limit@),
                        Elapsed::Of(old(self).current_timeout()),
                        old(self).pending_command(),
                        old(self).current_timeout(),
                    )
                },
                Event::Waited(s, WaitOutcome::Failed { detail, elapsed }) => {
                    &&& final(self).answered_one(old(self))
                    &&& final(self).current_phase() == Phase::Ready
                    &&& final(self).current_session() == Some(s)
                    &&& a matches Action::Respond(r) && is_response(
                        r,
                        exec_error_text(detail@),
                        Elapsed::Of(elapsed),
                        old(self).pending_command(),
                        old(self).current_timeout(),
                    )
                },
                _ => true,
            },
            old(self).current_phase() == Phase::Renewing ==> match event {
                Event::Spawned(res) => {
                    &&& final(self).same_record(old(self))
                    &&& final(self).current_phase() == Phase::Ready
                    &&& final(self).current_session() == match res {
                        Ok(s) => Some(s),
                        Err(_) => None,
                    }
                    &&& a matches Action::NextLine
                },
                _ => true,
            },
    {
        let phase = self.phase;
        match event {
            Event::Line(req) => {
                if phase == Phase::Ready {
                    self.take_request(req)
                } else {
                    Action::NextLine
                }
            },
            Event::Malformed(detail) => {
                if phase == Phase::Ready {
                    self.reject_line(detail)
                } else {
                    Action::NextLine
                }
            },
            Event::Spawned(res) => {
                if phase == Phase::Spawning {
                    match res {
                        Ok(s) => {
                            self.phase = Phase::Sending;
                            Action::Send(s, eval_command_line(self.command.as_str()))
                        },
                        Err(e) => {
                            self.phase = Phase::Stopped;
                            Action::Abort(e)
                        },
                    }
                } else if phase == Phase::Renewing {
                    self.phase = Phase::Ready;
                    match res {
                        Ok(s) => {
                            self.session = Some(s);
                        },
                        Err(_) => {},
                    }
                    Action::NextLine
                } else {
                    Action::NextLine
                }
            },
            Event::Sent(s, res) => {
                if phase == Phase::Sending {
                    match res {
                        Ok(()) => {
                            self.phase = Phase::Waiting;
                            Action::Wait(s, self.timeout)
                        },
                        Err(e) => {
                            let output = send_error_message(e.as_str());
                            Action::Respond(
                                self.answer(output, Elapsed::Zero, Phase::Ready, Some(s)),
                            )
                        },
                    }
                } else {
                    Action::NextLine
                }
            },
            Event::Waited(s, outcome) => {
                if phase == Phase::Waiting {
                    match outcome {
                        WaitOutcome::Prompt { output, elapsed } => {
                            let clean = strip_ansi_escape_codes(output.as_str());
                            Action::Respond(
                                self.answer(clean, Elapsed::Of(elapsed), Phase::Ready, Some(s)),
                            )
                        },
                        WaitOutcome::TimedOut { limit } => {
                            let t = self.timeout;
                            let output = timed_out_message(limit.as_str());
                            let r = self.answer(output, Elapsed::Of(t), Phase::Renewing, None);
                            Action::RespondAndRenew(r, s, t)
                        },
                        WaitOutcome::Failed { detail, elapsed } => {
                            let output = exec_error_message(detail.as_str());
                            Action::Respond(
                                self.answer(output, Elapsed::Of(elapsed), Phase::Ready, Some(s)),
                            )
                        },
                    }
                } else {
                    Action::NextLine
                }
            },
        }
    }
}

/// Every response answers the line taken before it, in the order the lines
/// came, and the lines are answered one at a time: at most one is waiting
/// for its response, and none once the manager is back to taking lines.
pub proof fn lemma_one_response_per_line<S, T: Copy>(m: SessionManager<S, T>)
    requires
        m.wf(),
    ensures
        m.answered() == m.received().take(m.answered().len() as int),
        m.received().len() - m.answered().len() <= 1,
        m.current_phase() == Phase::Ready || m.current_phase() == Phase::Renewing ==> m.answered()
            == m.received(),
{
    if m.answered().len() == m.received().len() {
        assert(m.received().take(m.received().len() as int) =~= m.received());
    }
}

/// The timeout in force is the last one that a line supplied, or the one the
/// manager was created with if none did.
pub proof fn lemma_timeout_in_force<S, T: Copy>(m: SessionManager<S, T>)
    requires
        m.wf(),
    ensures
        m.current_timeout() == effective_timeout(m.initial_timeout(), m.supplied()),
{
}

/// A timeout supplied by line `i` stays in force through line `j` when no
/// line in between supplies another.
pub proof fn lemma_timeout_persists<T>(initial: T, supplied: Seq<Option<T>>, i: int, j: int)
    requires
        0 <= i <= j < supplied.len(),
        supplied[i] is Some,
        forall|k: int| i < k <= j ==> #[trigger] supplied[k] is None,
    ensures
        effective_timeout(initial, supplied.take(j + 1)) == supplied[i]->Some_0,
    decreases j - i,
{
    let p = supplied.take(j + 1);
    assert(p.last() == supplied[j]);
    if j > i {
        assert(p.drop_last() =~= supplied.take(j));
        lemma_timeout_persists(initial, supplied, i, j - 1);
    }
}

} // verus!
