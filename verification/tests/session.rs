use gpu_telemetry::session::advance;
use gpu_telemetry::session::Action;
use gpu_telemetry::session::Command;
use gpu_telemetry::session::Event;
use gpu_telemetry::session::Stage;

#[test]
fn no_command_ends_at_once() {
    assert_eq!(advance(Stage::Ready, Event::Begin(Command::Nothing)), (Stage::Done, vec![]));
}

#[test]
fn info_prints_and_ends() {
    assert_eq!(
        advance(Stage::Ready, Event::Begin(Command::Info)),
        (Stage::Done, vec![Action::PrintInfo])
    );
}

#[test]
fn single_query_polls_once_and_writes() {
    let (stage, actions) = advance(Stage::Ready, Event::Begin(Command::Query { watch: false }));
    assert_eq!(stage, Stage::Polling { watch: false });
    assert_eq!(actions, vec![Action::Poll]);
    assert_eq!(
        advance(stage, Event::Polled { ready: true }),
        (Stage::Done, vec![Action::WriteReport, Action::Flush])
    );
}

#[test]
fn single_query_that_fails_prints_nothing() {
    assert_eq!(
        advance(Stage::Polling { watch: false }, Event::Polled { ready: false }),
        (Stage::Done, vec![])
    );
}

#[test]
fn watch_prepares_the_screen_first() {
    assert_eq!(
        advance(Stage::Ready, Event::Begin(Command::Query { watch: true })),
        (
            Stage::Checking,
            vec![Action::HideCursor, Action::ClearScreen, Action::ObserveInterrupt]
        )
    );
}

#[test]
fn watch_refreshes_and_polls_while_running() {
    assert_eq!(
        advance(Stage::Checking, Event::Observed { running: true }),
        (Stage::Polling { watch: true }, vec![Action::RefreshProcesses, Action::Poll])
    );
}

#[test]
fn watch_redraws_then_sleeps() {
    assert_eq!(
        advance(Stage::Polling { watch: true }, Event::Polled { ready: true }),
        (
            Stage::Checking,
            vec![
                Action::MoveToOrigin,
                Action::ClearScreen,
                Action::WriteReport,
                Action::Flush,
                Action::Sleep,
                Action::ObserveInterrupt
            ]
        )
    );
}

#[test]
fn watch_skips_a_failed_poll_but_still_sleeps() {
    assert_eq!(
        advance(Stage::Polling { watch: true }, Event::Polled { ready: false }),
        (Stage::Checking, vec![Action::Sleep, Action::ObserveInterrupt])
    );
}

#[test]
fn interrupt_restores_the_cursor_and_ends() {
    assert_eq!(
        advance(Stage::Checking, Event::Observed { running: false }),
        (Stage::Done, vec![Action::ShowCursor])
    );
}

#[test]
fn unexpected_events_change_nothing() {
    let events = [
        Event::Begin(Command::Info),
        Event::Begin(Command::Query { watch: true }),
        Event::Polled { ready: true },
        Event::Observed { running: true },
        Event::Observed { running: false },
    ];
    for event in events {
        assert_eq!(advance(Stage::Done, event), (Stage::Done, vec![]));
    }
    assert_eq!(advance(Stage::Ready, Event::Polled { ready: true }), (Stage::Ready, vec![]));
    assert_eq!(
        advance(Stage::Ready, Event::Observed { running: false }),
        (Stage::Ready, vec![])
    );
    assert_eq!(
        advance(Stage::Checking, Event::Polled { ready: true }),
        (Stage::Checking, vec![])
    );
    assert_eq!(
        advance(Stage::Polling { watch: true }, Event::Observed { running: false }),
        (Stage::Polling { watch: true }, vec![])
    );
    assert_eq!(
        advance(Stage::Polling { watch: false }, Event::Begin(Command::Nothing)),
        (Stage::Polling { watch: false }, vec![])
    );
}

#[test]
fn watch_run_with_two_polls_and_an_interrupt() {
    let mut stage = Stage::Ready;
    let mut done: Vec<Action> = Vec::new();
    let events = [
        Event::Begin(Command::Query { watch: true }),
        Event::Observed { running: true },
        Event::Polled { ready: true },
        Event::Observed { running: true },
        Event::Polled { ready: false },
        Event::Observed { running: false },
    ];
    for event in events {
        let (next, actions) = advance(stage, event);
        stage = next;
        done.extend(actions);
    }
    assert_eq!(stage, Stage::Done);
    assert_eq!(done.iter().filter(|action| **action == Action::WriteReport).count(), 1);
    assert_eq!(done.iter().filter(|action| **action == Action::Sleep).count(), 2);
    assert_eq!(done.first(), Some(&Action::HideCursor));
    assert_eq!(done.last(), Some(&Action::ShowCursor));
}
