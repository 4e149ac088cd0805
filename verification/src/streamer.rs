//! The command streamer: one external process, its standard output
//! forwarded line by line to all connected sessions, bounded by a hard
//! deadline.
//!
//! The caller spawns the process with its standard output piped, then races
//! reading the pipe line by line against the deadline; each thing it
//! observes is handed in as a `RunEvent`, and the returned `RunAction` is
//! performed: a completed line is broadcast the moment it arrives, an
//! elapsed deadline kills the process. A failure to spawn is fatal to that
//! one run alone: no `CommandRun` starts and nothing is broadcast. Each run
//! is a single linear state machine, `Running` to one of the three terminal
//! states.

use vstd::prelude::*;

verus! {

/// Where one command run stands. `Running` is the only non-terminal state.
#[derive(Clone, Copy, PartialEq, Eq, Structural, Debug)]
pub enum RunState {
    Running,
    /// The pipe reached end of stream before the deadline.
    Completed,
    /// The deadline elapsed first; the process was ordered killed.
    TimedOut,
    /// Reading the pipe failed with something other than end of stream.
    Failed,
}

/// What the caller observed while racing the pipe against the deadline.
pub enum RunEvent {
    /// One completed output line.
    Line(Vec<u8>),
    /// The pipe closed: the process finished its output.
    Eof,
    /// A read error other than end of stream.
    ReadFailed,
    /// The deadline fired before the pipe closed.
    DeadlineElapsed,
}

/// What the caller must do next.
pub enum RunAction {
    /// Broadcast this line to every currently connected session.
    Broadcast(Vec<u8>),
    /// Forcibly terminate the process, then still collect its exit status.
    Kill,
    /// Collect the process's exit status and record it.
    AwaitExit,
    /// Nothing: the run already ended.
    Ignore,
}

/// The state after one event.
pub open spec fn step_state(s: RunState, e: RunEvent) -> RunState {
    if s != RunState::Running {
        s
    } else {
        match e {
            RunEvent::Line(_) => RunState::Running,
            RunEvent::Eof => RunState::Completed,
            RunEvent::ReadFailed => RunState::Failed,
            RunEvent::DeadlineElapsed => RunState::TimedOut,
        }
    }
}

/// The action one event demands.
pub open spec fn step_action(s: RunState, e: RunEvent) -> RunAction {
    if s != RunState::Running {
        RunAction::Ignore
    } else {
        match e {
            RunEvent::Line(l) => RunAction::Broadcast(l),
            RunEvent::Eof => RunAction::AwaitExit,
            RunEvent::ReadFailed => RunAction::AwaitExit,
            RunEvent::DeadlineElapsed => RunAction::Kill,
        }
    }
}

/// The state after a whole sequence of events.
pub open spec fn final_state(s: RunState, events: Seq<RunEvent>) -> RunState
    decreases events.len(),
{
    if events.len() == 0 {
        s
    } else {
        final_state(step_state(s, events.first()), events.drop_first())
    }
}

/// The lines a single action broadcasts: one for `Broadcast`, none
/// otherwise.
pub open spec fn action_lines(a: RunAction) -> Seq<Seq<u8>> {
    match a {
        RunAction::Broadcast(l) => seq![l@],
        _ => Seq::empty(),
    }
}

/// Everything a sequence of events broadcasts, in emission order.
pub open spec fn emitted(s: RunState, events: Seq<RunEvent>) -> Seq<Seq<u8>>
    decreases events.len(),
{
    if events.len() == 0 {
        Seq::empty()
    } else {
        action_lines(step_action(s, events.first())) + emitted(
            step_state(s, events.first()),
            events.drop_first(),
        )
    }
}

/// One command run: its state, how many lines it has broadcast, and the
/// deadline it was started with. Transient: it exists for the duration of
/// one command execution and is never persisted.
pub struct CommandRun {
    pub state: RunState,
    pub lines_emitted: u64,
    pub timeout_secs: u64,
}

impl CommandRun {
    /// A freshly spawned run, racing its deadline.
    pub fn start(timeout_secs: u64) -> (r: CommandRun)
        ensures
            r.state == RunState::Running,
            r.lines_emitted == 0,
            r.timeout_secs == timeout_secs,
    {
        CommandRun { state: RunState::Running, lines_emitted: 0, timeout_secs }
    }

    /// Drive the run by one observed event. While running: a line is
    /// broadcast as it arrives, end of stream completes the run, a read
    /// error fails it, and an elapsed deadline times it out and kills the
    /// process. A run already in a terminal state absorbs every further
    /// event unchanged.
    pub fn step(&mut self, e: RunEvent) -> (a: RunAction)
        requires
            (old(self).state == RunState::Running && e matches RunEvent::Line(_)) ==> old(
                self,
            ).lines_emitted < u64::MAX,
        ensures
            final(self).state == step_state(old(self).state, e),
            a == step_action(old(self).state, e),
            final(self).timeout_secs == old(self).timeout_secs,
            a matches RunAction::Broadcast(_) ==> final(self).lines_emitted == old(
                self,
            ).lines_emitted + 1,
            !(a matches RunAction::Broadcast(_)) ==> final(self).lines_emitted == old(
                self,
            ).lines_emitted,
    {
        if !(self.state == RunState::Running) {
            return RunAction::Ignore;
        }
        match e {
            RunEvent::Line(l) => {
                self.lines_emitted = self.lines_emitted + 1;
                RunAction::Broadcast(l)
            },
            RunEvent::Eof => {
                self.state = RunState::Completed;
                RunAction::AwaitExit
            },
            RunEvent::ReadFailed => {
                self.state = RunState::Failed;
                RunAction::AwaitExit
            },
            RunEvent::DeadlineElapsed => {
                self.state = RunState::TimedOut;
                RunAction::Kill
            },
        }
    }
}

/// Each terminal state is absorbing: once a run completed, timed out or
/// failed, further events change nothing and demand nothing.
pub proof fn lemma_terminal_absorbing(s: RunState, e: RunEvent)
    requires
        s != RunState::Running,
    ensures
        step_state(s, e) == s,
        step_action(s, e) == RunAction::Ignore,
{
}

/// The events of a pure stream of output lines.
pub open spec fn line_events(lines: Seq<Vec<u8>>) -> Seq<RunEvent> {
    lines.map_values(|l: Vec<u8>| RunEvent::Line(l))
}

/// The byte sequences of those lines.
pub open spec fn views_of(lines: Seq<Vec<u8>>) -> Seq<Seq<u8>> {
    lines.map_values(|l: Vec<u8>| l@)
}

/// Playing a trace in two parts plays it whole: states compose, and the
/// broadcasts concatenate in order.
pub proof fn lemma_trace_append(s: RunState, e1: Seq<RunEvent>, e2: Seq<RunEvent>)
    ensures
        final_state(s, e1 + e2) == final_state(final_state(s, e1), e2),
        emitted(s, e1 + e2) =~= emitted(s, e1) + emitted(final_state(s, e1), e2),
    decreases e1.len(),
{
    if e1.len() == 0 {
        assert(e1 + e2 =~= e2);
    } else {
        assert((e1 + e2).first() == e1.first());
        assert((e1 + e2).drop_first() =~= e1.drop_first() + e2);
        lemma_trace_append(step_state(s, e1.first()), e1.drop_first(), e2);
    }
}

/// A stream of lines alone keeps the run running and broadcasts each line,
/// in emission order.
pub proof fn lemma_lines_stream(lines: Seq<Vec<u8>>)
    ensures
        final_state(RunState::Running, line_events(lines)) == RunState::Running,
        emitted(RunState::Running, line_events(lines)) =~= views_of(lines),
    decreases lines.len(),
{
    if lines.len() > 0 {
        lemma_lines_stream(lines.drop_first());
        assert(line_events(lines).first() == RunEvent::Line(lines.first()));
        assert(line_events(lines).drop_first() =~= line_events(lines.drop_first()));
        assert(views_of(lines).drop_first() =~= views_of(lines.drop_first()));
        assert(emitted(RunState::Running, line_events(lines)) =~= seq![lines.first()@] + views_of(
            lines.drop_first(),
        ));
        assert(seq![lines.first()@] + views_of(lines.drop_first()) =~= views_of(lines));
    }
}

/// A command that prints its lines and exits within the deadline: the run
/// completes, and exactly those lines were broadcast, in emission order, each
/// at the moment it was read.
pub proof fn lemma_run_completes(lines: Seq<Vec<u8>>)
    ensures
        final_state(RunState::Running, line_events(lines).push(RunEvent::Eof))
            == RunState::Completed,
        emitted(RunState::Running, line_events(lines).push(RunEvent::Eof)) =~= views_of(lines),
{
    lemma_lines_stream(lines);
    assert(line_events(lines).push(RunEvent::Eof) =~= line_events(lines) + seq![RunEvent::Eof]);
    lemma_trace_append(RunState::Running, line_events(lines), seq![RunEvent::Eof]);
    let tail = seq![RunEvent::Eof].drop_first();
    assert(seq![RunEvent::Eof].first() == RunEvent::Eof);
    assert(tail.len() == 0);
    assert(final_state(RunState::Completed, tail) == RunState::Completed);
    assert(final_state(RunState::Running, seq![RunEvent::Eof]) == RunState::Completed);
    assert(emitted(RunState::Completed, tail) =~= Seq::<Seq<u8>>::empty());
    assert(emitted(RunState::Running, seq![RunEvent::Eof]) =~= Seq::<Seq<u8>>::empty());
}

/// A command that outlives its deadline: the demanded action on the elapsed
/// deadline is exactly `Kill`, the run is timed out, and what had already
/// been read — and only that — was broadcast. The run never hangs in the
/// machine: after `Kill` it is terminal and absorbs everything.
pub proof fn lemma_run_timed_out(lines: Seq<Vec<u8>>)
    ensures
        step_action(final_state(RunState::Running, line_events(lines)), RunEvent::DeadlineElapsed)
            == RunAction::Kill,
        final_state(RunState::Running, line_events(lines).push(RunEvent::DeadlineElapsed))
            == RunState::TimedOut,
        emitted(RunState::Running, line_events(lines).push(RunEvent::DeadlineElapsed)) =~= views_of(
            lines,
        ),
{
    lemma_lines_stream(lines);
    assert(line_events(lines).push(RunEvent::DeadlineElapsed) =~= line_events(lines) + seq![
        RunEvent::DeadlineElapsed,
    ]);
    lemma_trace_append(RunState::Running, line_events(lines), seq![RunEvent::DeadlineElapsed]);
    let tail = seq![RunEvent::DeadlineElapsed].drop_first();
    assert(seq![RunEvent::DeadlineElapsed].first() == RunEvent::DeadlineElapsed);
    assert(tail.len() == 0);
    assert(final_state(RunState::TimedOut, tail) == RunState::TimedOut);
    assert(final_state(RunState::Running, seq![RunEvent::DeadlineElapsed]) == RunState::TimedOut);
    assert(emitted(RunState::TimedOut, tail) =~= Seq::<Seq<u8>>::empty());
    assert(emitted(RunState::Running, seq![RunEvent::DeadlineElapsed]) =~= Seq::<Seq<u8>>::empty());
}

} // verus!
