//! The script runner of one item, as a state machine: the program around
//! the library runs the command, sleeps and sends, and asks here what to do
//! next after each thing that happened.

use vstd::prelude::*;
use crate::line::{Update, UpdateView};
use crate::text::{trim_back, trim_line_endings};

verus! {

/// Pause before a streaming command that ended is started again.
pub const RESTART_PAUSE_MILLIS: u64 = 10;

/// How the command of an item is executed.
#[derive(Clone, Copy, Debug, PartialEq, Eq, Structural)]
pub enum Policy {
    /// Run once, report the output, never run again.
    Static,
    /// Run to completion again and again, sleeping in between.
    Periodic { millis: u64 },
    /// Start once and report every line of output; start again when it ends.
    Streaming,
}

/// Where a runner stands.
#[derive(Clone, Copy, Debug, PartialEq, Eq, Structural)]
pub enum Phase {
    /// Not started yet.
    Idle,
    /// The command is running.
    Working,
    /// The runner sleeps before it starts the command again.
    Sleeping,
    /// The runner has ended.
    Done,
}

/// What happened since the last action.
#[derive(Debug)]
pub enum Event {
    /// The runner was started.
    Started,
    /// A command that was run to completion wrote this to standard output.
    Output(String),
    /// A streaming command wrote this line.
    Line(String),
    /// The output of a streaming command ended.
    StreamEnded,
    /// The sleep is over.
    Woke,
    /// The command could not be launched.
    LaunchFailed,
}

/// What the program around the runner does next.
#[derive(Clone, Copy, Debug, PartialEq, Eq, Structural)]
pub enum Action {
    /// Run the command to completion and report its output.
    Run,
    /// Start the command and report its lines as they come.
    Spawn,
    /// Go on waiting for what the running command does.
    Await,
    /// Sleep for so many milliseconds, then report it.
    Sleep(u64),
    /// End this runner.
    Stop,
    /// End the whole program with an error.
    Abort,
}

/// The answer to one event.
#[derive(Debug)]
pub struct Step {
    pub phase: Phase,
    pub update: Option<Update>,
    pub action: Action,
}

/// The phase that follows `phase` on `event`.
pub open spec fn next_phase(policy: Policy, phase: Phase, event: Event) -> Phase {
    match (phase, event) {
        (Phase::Idle, Event::Started) => Phase::Working,
        (Phase::Working, Event::LaunchFailed) => Phase::Done,
        (Phase::Working, Event::Output(_)) => match policy {
            Policy::Static => Phase::Done,
            Policy::Periodic { .. } => Phase::Sleeping,
            Policy::Streaming => Phase::Working,
        },
        (Phase::Working, Event::StreamEnded) => match policy {
            Policy::Streaming => Phase::Sleeping,
            _ => Phase::Working,
        },
        (Phase::Sleeping, Event::Woke) => match policy {
            Policy::Static => Phase::Done,
            _ => Phase::Working,
        },
        _ => phase,
    }
}

/// The action that answers `event` in `phase`.
pub open spec fn next_action(policy: Policy, phase: Phase, event: Event) -> Action {
    match (phase, event) {
        (Phase::Idle, Event::Started) => match policy {
            Policy::Streaming => Action::Spawn,
            _ => Action::Run,
        },
        (Phase::Working, Event::LaunchFailed) => Action::Abort,
        (Phase::Working, Event::Output(_)) => match policy {
            Policy::Static => Action::Stop,
            Policy::Periodic { millis } => Action::Sleep(millis),
            Policy::Streaming => Action::Await,
        },
        (Phase::Working, Event::StreamEnded) => match policy {
            Policy::Streaming => Action::Sleep(RESTART_PAUSE_MILLIS),
            _ => Action::Await,
        },
        (Phase::Sleeping, Event::Woke) => match policy {
            Policy::Static => Action::Stop,
            Policy::Periodic { .. } => Action::Run,
            Policy::Streaming => Action::Spawn,
        },
        (Phase::Done, _) => Action::Stop,
        _ => Action::Await,
    }
}

/// The update that `event` gives in `phase`, if it gives one: the whole
/// output of a static or periodic command, or one line of a streaming one,
/// without the line endings at its end.
pub open spec fn next_update(policy: Policy, position: usize, phase: Phase, event: Event) -> Option<
    UpdateView,
> {
    match (phase, event) {
        (Phase::Working, Event::Output(text)) => match policy {
            Policy::Streaming => None,
            _ => Some(UpdateView { position: position as int, message: trim_back(text@) }),
        },
        (Phase::Working, Event::Line(text)) => match policy {
            Policy::Streaming => Some(
                UpdateView { position: position as int, message: trim_back(text@) },
            ),
            _ => None,
        },
        _ => None,
    }
}

/// Answers one event for the runner of the item at `position`.
pub fn step(policy: Policy, position: usize, phase: Phase, event: Event) -> (out: Step)
    ensures
        out.phase == next_phase(policy, phase, event),
        out.action == next_action(policy, phase, event),
        out.update is Some <==> next_update(policy, position, phase, event) is Some,
        out.update is Some ==> out.update->0@ == next_update(policy, position, phase, event)->0,
{
    match phase {
        Phase::Idle => match event {
            Event::Started => match policy {
                Policy::Streaming => Step { phase: Phase::Working, update: None, action: Action::Spawn },
                _ => Step { phase: Phase::Working, update: None, action: Action::Run },
            },
            _ => Step { phase, update: None, action: Action::Await },
        },
        Phase::Working => match event {
            Event::LaunchFailed => Step { phase: Phase::Done, update: None, action: Action::Abort },
            Event::Output(text) => match policy {
                Policy::Static => Step {
                    phase: Phase::Done,
                    update: Some(Update { position, message: trim_line_endings(text.as_str()) }),
                    action: Action::Stop,
                },
                Policy::Periodic { millis } => Step {
                    phase: Phase::Sleeping,
                    update: Some(Update { position, message: trim_line_endings(text.as_str()) }),
                    action: Action::Sleep(millis),
                },
                Policy::Streaming => Step { phase, update: None, action: Action::Await },
            },
            Event::Line(text) => match policy {
                Policy::Streaming => Step {
                    phase,
                    update: Some(Update { position, message: trim_line_endings(text.as_str()) }),
                    action: Action::Await,
                },
                _ => Step { phase, update: None, action: Action::Await },
            },
            Event::StreamEnded => match policy {
                Policy::Streaming => Step {
                    phase: Phase::Sleeping,
                    update: None,
                    action: Action::Sleep(RESTART_PAUSE_MILLIS),
                },
                _ => Step { phase, update: None, action: Action::Await },
            },
            _ => Step { phase, update: None, action: Action::Await },
        },
        Phase::Sleeping => match event {
            Event::Woke => match policy {
                Policy::Static => Step { phase: Phase::Done, update: None, action: Action::Stop },
                Policy::Periodic { .. } => Step {
                    phase: Phase::Working,
                    update: None,
                    action: Action::Run,
                },
                Policy::Streaming => Step {
                    phase: Phase::Working,
                    update: None,
                    action: Action::Spawn,
                },
            },
            _ => Step { phase, update: None, action: Action::Await },
        },
        Phase::Done => Step { phase, update: None, action: Action::Stop },
    }
}

/// The updates that a runner gives over a run of events, from `phase` on.
pub open spec fn emitted(policy: Policy, position: usize, phase: Phase, events: Seq<Event>) -> Seq<
    UpdateView,
>
    decreases events.len(),
{
    if events.len() == 0 {
        Seq::empty()
    } else {
        let rest = emitted(
            policy,
            position,
            next_phase(policy, phase, events.first()),
            events.drop_first(),
        );
        match next_update(policy, position, phase, events.first()) {
            Some(u) => seq![u] + rest,
            None => rest,
        }
    }
}

/// How often `action` is asked for over a run of events, from `phase` on.
pub open spec fn times_asked(policy: Policy, phase: Phase, events: Seq<Event>, action: Action) -> nat
    decreases events.len(),
{
    if events.len() == 0 {
        0
    } else {
        let rest = times_asked(
            policy,
            next_phase(policy, phase, events.first()),
            events.drop_first(),
            action,
        );
        if next_action(policy, phase, events.first()) == action {
            rest + 1
        } else {
            rest
        }
    }
}

/// The actions asked for over a run of events, from `phase` on, one for
/// each event.
pub open spec fn actions(policy: Policy, phase: Phase, events: Seq<Event>) -> Seq<Action>
    decreases events.len(),
{
    if events.len() == 0 {
        Seq::empty()
    } else {
        seq![next_action(policy, phase, events.first())] + actions(
            policy,
            next_phase(policy, phase, events.first()),
            events.drop_first(),
        )
    }
}

/// Among `acts`, a sleep of `millis` milliseconds is asked for after the
/// action at `i` and before the one at `j`.
pub open spec fn sleeps_between(acts: Seq<Action>, i: int, j: int, millis: u64) -> bool {
    exists|k: int| i < k < j && #[trigger] acts[k] == Action::Sleep(millis)
}

/// A static item gives at most one update over any run of events, and
/// none once its runner has ended.
pub proof fn lemma_static_emits_once(position: usize, phase: Phase, events: Seq<Event>)
    ensures
        emitted(Policy::Static, position, phase, events).len() <= 1,
        phase == Phase::Done ==> emitted(Policy::Static, position, phase, events).len() == 0,
    decreases events.len(),
{
    if events.len() > 0 {
        lemma_static_emits_once(
            position,
            next_phase(Policy::Static, phase, events.first()),
            events.drop_first(),
        );
    }
}

/// A static item that is started and whose command completes gives exactly
/// one update, the trimmed output, whatever happens afterwards.
pub proof fn lemma_static_run_gives_one_update(position: usize, text: String, rest: Seq<Event>)
    ensures
        emitted(
            Policy::Static,
            position,
            Phase::Idle,
            seq![Event::Started, Event::Output(text)] + rest,
        ) == seq![UpdateView { position: position as int, message: trim_back(text@) }],
{
    let events = seq![Event::Started, Event::Output(text)] + rest;
    let tail = events.drop_first();
    assert(events.first() == Event::Started);
    assert(tail.first() == Event::Output(text));
    assert(tail.drop_first() =~= rest);
    lemma_static_emits_once(position, Phase::Done, rest);
    let after = emitted(Policy::Static, position, Phase::Done, rest);
    assert(after =~= Seq::<UpdateView>::empty());
    assert(emitted(Policy::Static, position, Phase::Working, tail) =~= seq![
        UpdateView { position: position as int, message: trim_back(text@) },
    ]);
}

/// For a periodic item, over any run of events from the start: every
/// completed execution gives one update and is followed by one sleep of the
/// item's interval, and every execution but the first comes after such a
/// sleep, so that executions never outnumber the sleeps by more than one.
pub proof fn lemma_periodic_runs_are_spaced(millis: u64, position: usize, events: Seq<Event>)
    ensures
        emitted(Policy::Periodic { millis }, position, Phase::Idle, events).len() == times_asked(
            Policy::Periodic { millis },
            Phase::Idle,
            events,
            Action::Sleep(millis),
        ),
        times_asked(Policy::Periodic { millis }, Phase::Idle, events, Action::Run) <= times_asked(
            Policy::Periodic { millis },
            Phase::Idle,
            events,
            Action::Sleep(millis),
        ) + 1,
{
    lemma_periodic_counts(millis, position, Phase::Idle, events);
}

proof fn lemma_periodic_counts(millis: u64, position: usize, phase: Phase, events: Seq<Event>)
    ensures
        emitted(Policy::Periodic { millis }, position, phase, events).len() == times_asked(
            Policy::Periodic { millis },
            phase,
            events,
            Action::Sleep(millis),
        ),
        times_asked(Policy::Periodic { millis }, phase, events, Action::Run) <= times_asked(
            Policy::Periodic { millis },
            phase,
            events,
            Action::Sleep(millis),
        ) + 1,
        phase == Phase::Working || phase == Phase::Done ==> times_asked(
            Policy::Periodic { millis },
            phase,
            events,
            Action::Run,
        ) <= times_asked(Policy::Periodic { millis }, phase, events, Action::Sleep(millis)),
    decreases events.len(),
{
    if events.len() > 0 {
        lemma_periodic_counts(
            millis,
            position,
            next_phase(Policy::Periodic { millis }, phase, events.first()),
            events.drop_first(),
        );
    }
}

/// Between any two executions of a periodic item the runner asks for a
/// sleep of the item's interval, whatever the events and whichever phase the
/// run starts from.
pub proof fn lemma_periodic_sleeps_between_runs(
    millis: u64,
    phase: Phase,
    events: Seq<Event>,
    i: int,
    j: int,
)
    requires
        0 <= i < j < events.len(),
        actions(Policy::Periodic { millis }, phase, events)[i] == Action::Run,
        actions(Policy::Periodic { millis }, phase, events)[j] == Action::Run,
    ensures
        actions(Policy::Periodic { millis }, phase, events).len() == events.len(),
        sleeps_between(actions(Policy::Periodic { millis }, phase, events), i, j, millis),
    decreases events.len(),
{
    let policy = Policy::Periodic { millis };
    let acts = actions(policy, phase, events);
    let then = next_phase(policy, phase, events.first());
    let tail = events.drop_first();
    let rest = actions(policy, then, tail);
    lemma_actions_len(policy, phase, events);
    lemma_actions_len(policy, then, tail);
    assert(acts[j] == rest[j - 1]);
    if i > 0 {
        assert(acts[i] == rest[i - 1]);
        lemma_periodic_sleeps_between_runs(millis, then, tail, i - 1, j - 1);
        let k = choose|k: int| i - 1 < k < j - 1 && #[trigger] rest[k] == Action::Sleep(millis);
        assert(acts[k + 1] == rest[k]);
    } else {
        assert(acts[0] == next_action(policy, phase, events.first()));
        lemma_periodic_run_needs_sleep(millis, then, tail, j - 1);
        let k = choose|k: int| 0 <= k < j - 1 && #[trigger] rest[k] == Action::Sleep(millis);
        assert(acts[k + 1] == rest[k]);
    }
}

/// One action is asked for on each event.
pub proof fn lemma_actions_len(policy: Policy, phase: Phase, events: Seq<Event>)
    ensures
        actions(policy, phase, events).len() == events.len(),
    decreases events.len(),
{
    if events.len() > 0 {
        lemma_actions_len(policy, next_phase(policy, phase, events.first()), events.drop_first());
    }
}

proof fn lemma_periodic_run_needs_sleep(millis: u64, phase: Phase, events: Seq<Event>, j: int)
    requires
        phase == Phase::Working || phase == Phase::Done,
        0 <= j < events.len(),
        actions(Policy::Periodic { millis }, phase, events)[j] == Action::Run,
    ensures
        exists|k: int|
            0 <= k < j && #[trigger] actions(Policy::Periodic { millis }, phase, events)[k]
                == Action::Sleep(millis),
    decreases events.len(),
{
    let policy = Policy::Periodic { millis };
    let acts = actions(policy, phase, events);
    let then = next_phase(policy, phase, events.first());
    let tail = events.drop_first();
    let rest = actions(policy, then, tail);
    lemma_actions_len(policy, phase, events);
    lemma_actions_len(policy, then, tail);
    assert(acts[0] == next_action(policy, phase, events.first()));
    if j > 0 {
        assert(acts[j] == rest[j - 1]);
        if acts[0] == Action::Sleep(millis) {
            assert(0 <= 0 < j && acts[0] == Action::Sleep(millis));
        } else {
            lemma_periodic_run_needs_sleep(millis, then, tail, j - 1);
            let k = choose|k: int| 0 <= k < j - 1 && #[trigger] rest[k] == Action::Sleep(millis);
            assert(acts[k + 1] == rest[k]);
        }
    }
}

/// A periodic item executes its command only at the start and after a
/// sleep, and it sleeps only for its own interval, right after an
/// execution has given its update.
pub proof fn lemma_periodic_step(millis: u64, position: usize, phase: Phase, event: Event)
    ensures
        next_action(Policy::Periodic { millis }, phase, event) == Action::Run ==> (phase
            == Phase::Idle && event == Event::Started) || (phase == Phase::Sleeping && event
            == Event::Woke),
        next_phase(Policy::Periodic { millis }, phase, event) == Phase::Sleeping && phase
            != Phase::Sleeping ==> next_action(Policy::Periodic { millis }, phase, event)
            == Action::Sleep(millis) && next_update(
            Policy::Periodic { millis },
            position,
            phase,
            event,
        ) is Some,
{
}

/// While a streaming command runs, each of its lines gives exactly one
/// update, in order, without the line endings at its end.
pub proof fn lemma_streaming_one_update_per_line(position: usize, events: Seq<Event>)
    requires
        forall|k: int| 0 <= k < events.len() ==> (#[trigger] events[k]) is Line,
    ensures
        emitted(Policy::Streaming, position, Phase::Working, events).len() == events.len(),
        forall|k: int|
            0 <= k < events.len() ==> (#[trigger] emitted(
                Policy::Streaming,
                position,
                Phase::Working,
                events,
            )[k]) == (UpdateView {
                position: position as int,
                message: trim_back(events[k]->Line_0@),
            }),
    decreases events.len(),
{
    if events.len() > 0 {
        let tail = events.drop_first();
        assert(events.first() is Line);
        assert forall|k: int| 0 <= k < tail.len() implies (#[trigger] tail[k]) is Line by {
            assert(tail[k] == events[k + 1]);
        }
        lemma_streaming_one_update_per_line(position, tail);
        let all = emitted(Policy::Streaming, position, Phase::Working, events);
        let rest = emitted(Policy::Streaming, position, Phase::Working, tail);
        assert forall|k: int| 0 <= k < events.len() implies (#[trigger] all[k]) == (UpdateView {
            position: position as int,
            message: trim_back(events[k]->Line_0@),
        }) by {
            if k > 0 {
                assert(all[k] == rest[k - 1]);
                assert(tail[k - 1] == events[k]);
            }
        }
    }
}

/// When the output of a streaming command ends, the runner sleeps for the
/// restart pause and then starts the command again.
pub proof fn lemma_streaming_restarts_after_pause(position: usize)
    ensures
        next_phase(Policy::Streaming, Phase::Working, Event::StreamEnded) == Phase::Sleeping,
        next_action(Policy::Streaming, Phase::Working, Event::StreamEnded) == Action::Sleep(
            RESTART_PAUSE_MILLIS,
        ),
        next_update(Policy::Streaming, position, Phase::Working, Event::StreamEnded) is None,
        next_phase(Policy::Streaming, Phase::Sleeping, Event::Woke) == Phase::Working,
        next_action(Policy::Streaming, Phase::Sleeping, Event::Woke) == Action::Spawn,
{
}

} // verus!
