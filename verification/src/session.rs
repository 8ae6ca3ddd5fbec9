//! The course of one run of the monitor, as a machine that is told what
//! happened and answers with what to do next. It performs nothing itself:
//! whoever drives it touches the terminal, the device and the clock.

use vstd::prelude::*;

verus! {

/// What the user asked for.
#[derive(Clone, Copy, Debug, PartialEq, Eq, Structural)]
pub enum Command {
    /// Show the report, once or again every second.
    Query { watch: bool },
    /// Show the description of the device.
    Info,
    /// Nothing was asked for.
    Nothing,
}

/// Where a run stands.
#[derive(Clone, Copy, Debug, PartialEq, Eq, Structural)]
pub enum Stage {
    /// Nothing has happened yet.
    Ready,
    /// A poll of the device is under way.
    Polling { watch: bool },
    /// A watching run is about to learn whether it was interrupted.
    Checking,
    /// The run is over.
    Done,
}

/// What the driver reports back.
#[derive(Clone, Copy, Debug, PartialEq, Eq, Structural)]
pub enum Event {
    /// The run begins with this command.
    Begin(Command),
    /// A poll ended; `ready` says whether it produced a report.
    Polled { ready: bool },
    /// The interrupt flag was read; `running` is false once the user has
    /// interrupted the run.
    Observed { running: bool },
}

/// One thing for the driver to do.
#[derive(Clone, Copy, Debug, PartialEq, Eq, Structural)]
pub enum Action {
    HideCursor,
    ShowCursor,
    ClearScreen,
    MoveToOrigin,
    /// Reload the process list that names are taken from.
    RefreshProcesses,
    /// Poll the device, then report `Polled`.
    Poll,
    /// Write the report of the last poll.
    WriteReport,
    Flush,
    /// Wait for the poll interval of one second.
    Sleep,
    /// Read the interrupt flag, then report `Observed`.
    ObserveInterrupt,
    /// Print the description of the device.
    PrintInfo,
}

/// The stage after `event` has been reported in `stage`. An event that the
/// stage does not wait for changes nothing.
pub open spec fn next_stage(stage: Stage, event: Event) -> Stage {
    match (stage, event) {
        (Stage::Ready, Event::Begin(Command::Query { watch: true })) => Stage::Checking,
        (Stage::Ready, Event::Begin(Command::Query { watch: false })) => Stage::Polling {
            watch: false,
        },
        (Stage::Ready, Event::Begin(_)) => Stage::Done,
        (Stage::Checking, Event::Observed { running: true }) => Stage::Polling { watch: true },
        (Stage::Checking, Event::Observed { running: false }) => Stage::Done,
        (Stage::Polling { watch: true }, Event::Polled { .. }) => Stage::Checking,
        (Stage::Polling { watch: false }, Event::Polled { .. }) => Stage::Done,
        _ => stage,
    }
}

/// What is to be done when `event` has been reported in `stage`, in order.
pub open spec fn next_actions(stage: Stage, event: Event) -> Seq<Action> {
    match (stage, event) {
        (Stage::Ready, Event::Begin(Command::Query { watch: true })) => seq![
            Action::HideCursor,
            Action::ClearScreen,
            Action::ObserveInterrupt,
        ],
        (Stage::Ready, Event::Begin(Command::Query { watch: false })) => seq![Action::Poll],
        (Stage::Ready, Event::Begin(Command::Info)) => seq![Action::PrintInfo],
        (Stage::Checking, Event::Observed { running: true }) => seq![
            Action::RefreshProcesses,
            Action::Poll,
        ],
        (Stage::Checking, Event::Observed { running: false }) => seq![Action::ShowCursor],
        (Stage::Polling { watch: true }, Event::Polled { ready: true }) => seq![
            Action::MoveToOrigin,
            Action::ClearScreen,
            Action::WriteReport,
            Action::Flush,
            Action::Sleep,
            Action::ObserveInterrupt,
        ],
        (Stage::Polling { watch: true }, Event::Polled { ready: false }) => seq![
            Action::Sleep,
            Action::ObserveInterrupt,
        ],
        (Stage::Polling { watch: false }, Event::Polled { ready: true }) => seq![
            Action::WriteReport,
            Action::Flush,
        ],
        _ => Seq::empty(),
    }
}

/// Takes the run one step on: the new stage, and what to do now.
pub fn advance(stage: Stage, event: Event) -> (step: (Stage, Vec<Action>))
    ensures
        step.0 == next_stage(stage, event),
        step.1@ == next_actions(stage, event),
{
    let mut actions: Vec<Action> = Vec::new();
    let next = match (stage, event) {
        (Stage::Ready, Event::Begin(Command::Query { watch: true })) => {
            actions.push(Action::HideCursor);
            actions.push(Action::ClearScreen);
            actions.push(Action::ObserveInterrupt);
            Stage::Checking
        },
        (Stage::Ready, Event::Begin(Command::Query { watch: false })) => {
            actions.push(Action::Poll);
            Stage::Polling { watch: false }
        },
        (Stage::Ready, Event::Begin(Command::Info)) => {
            actions.push(Action::PrintInfo);
            Stage::Done
        },
        (Stage::Ready, Event::Begin(Command::Nothing)) => Stage::Done,
        (Stage::Checking, Event::Observed { running: true }) => {
            actions.push(Action::RefreshProcesses);
            actions.push(Action::Poll);
            Stage::Polling { watch: true }
        },
        (Stage::Checking, Event::Observed { running: false }) => {
            actions.push(Action::ShowCursor);
            Stage::Done
        },
        (Stage::Polling { watch: true }, Event::Polled { ready }) => {
            if ready {
                actions.push(Action::MoveToOrigin);
                actions.push(Action::ClearScreen);
                actions.push(Action::WriteReport);
                actions.push(Action::Flush);
            }
            actions.push(Action::Sleep);
            actions.push(Action::ObserveInterrupt);
            Stage::Checking
        },
        (Stage::Polling { watch: false }, Event::Polled { ready }) => {
            if ready {
                actions.push(Action::WriteReport);
                actions.push(Action::Flush);
            }
            Stage::Done
        },
        _ => stage,
    };
    (next, actions)
}

/// A poll that produced no report leads to no output: nothing is written,
/// and the screen is left as it was.
pub proof fn lemma_failed_poll_is_silent(stage: Stage)
    ensures
        !next_actions(stage, Event::Polled { ready: false }).contains(Action::WriteReport),
        !next_actions(stage, Event::Polled { ready: false }).contains(Action::ClearScreen),
        !next_actions(stage, Event::Polled { ready: false }).contains(Action::Flush),
{
}

/// The cursor is shown again exactly when a watching run learns that it was
/// interrupted, and the run is over then.
pub proof fn lemma_cursor_restored(stage: Stage, event: Event)
    ensures
        next_actions(stage, event).contains(Action::ShowCursor) <==> (stage == Stage::Checking
            && event == Event::Observed { running: false }),
        next_actions(stage, event).contains(Action::ShowCursor) ==> next_stage(stage, event)
            == Stage::Done,
{
    if stage == Stage::Checking && event == (Event::Observed { running: false }) {
        assert(next_actions(stage, event)[0] == Action::ShowCursor);
    }
}

/// A run that is over stays over and asks for nothing more.
pub proof fn lemma_done_is_final(event: Event)
    ensures
        next_stage(Stage::Done, event) == Stage::Done,
        next_actions(Stage::Done, event) == Seq::<Action>::empty(),
{
}

/// While watching, the report is written onto a cleared screen from the top
/// left corner, and then the run sleeps before it looks for an interrupt.
pub proof fn lemma_redraw(ready: bool)
    ensures
        ready ==> next_actions(Stage::Polling { watch: true }, Event::Polled { ready }) == seq![
            Action::MoveToOrigin,
            Action::ClearScreen,
            Action::WriteReport,
            Action::Flush,
            Action::Sleep,
            Action::ObserveInterrupt,
        ],
        next_stage(Stage::Polling { watch: true }, Event::Polled { ready }) == Stage::Checking,
{
}

} // verus!
