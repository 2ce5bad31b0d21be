use comms::client::ChatMessage;
use comms::config::{ApprovalSettings, Temperature};
use comms::conversation::{
    command_for, BusyStep, Command, Event, IdleStep, TurnOutcome, TurnState, Worker,
};
use comms::session::{Change, ChatSession};
use comms::store::{Activity, KIND_CHAT};
use comms::ui::{AgentEvent, ApprovalRequest, Submission};

fn temperature(value: f32) -> Temperature {
    Temperature {
        bits: value.to_bits(),
    }
}

fn session() -> ChatSession {
    ChatSession::create(
        "test-model".to_string(),
        KIND_CHAT,
        None,
        Some(20),
        None,
        ApprovalSettings::default(),
        true,
        false,
        true,
        true,
        None,
    )
}

fn worker() -> Worker {
    Worker::new(session(), Some(20), None, None, false)
}

/// Every submission that changes session state, paired with the command
/// it must produce. Listed rather than derived, so a mapping that
/// silently changes shows up as a failure here.
fn state_changing() -> Vec<(Submission, Command)> {
    vec![
        (
            Submission::Message("hi".to_string()),
            Command::Send("hi".to_string()),
        ),
        (
            Submission::SetModel("m".to_string()),
            Command::SetModel("m".to_string()),
        ),
        (Submission::SetAgentic(true), Command::SetAgentic(true)),
        (
            Submission::SetEffort(Some("high".to_string())),
            Command::SetEffort(Some("high".to_string())),
        ),
        (Submission::ResetEffort, Command::ResetEffort),
        (Submission::SetVerbose(true), Command::SetVerbose(true)),
        (Submission::SetStream(false), Command::SetStream(false)),
        (Submission::SetSandbox(false), Command::SetSandbox(false)),
        (
            Submission::SetMaxIterations(Some(5)),
            Command::SetMaxIterations(Some(5)),
        ),
        (Submission::ResetMaxIterations, Command::ResetMaxIterations),
        (
            Submission::SetTemperature(Some(temperature(1.0))),
            Command::SetTemperature(Some(temperature(1.0))),
        ),
        (Submission::ResetTemperature, Command::ResetTemperature),
        (
            Submission::SetApproval {
                category: "write".to_string(),
                enabled: false,
            },
            Command::SetApproval {
                category: "write".to_string(),
                enabled: false,
            },
        ),
    ]
}

#[test]
fn state_changing_submissions_go_to_the_worker() {
    for (submission, expected) in state_changing() {
        let command = command_for(&submission)
            .unwrap_or_else(|| panic!("{submission:?} should reach the worker"));
        assert_eq!(
            format!("{command:?}"),
            format!("{expected:?}"),
            "{submission:?} mapped wrong"
        );
    }
}

#[test]
fn read_only_submissions_are_answered_locally() {
    // These never reach the worker: the front end already holds what
    // they report, and a round trip would only add latency and a second
    // source of truth.
    for submission in [
        Submission::ShowModel,
        Submission::ShowApproval,
        Submission::ShowSandbox,
        Submission::ShowStatus,
        Submission::ShowVerbose,
        Submission::ShowStream,
        Submission::ShowTemperature,
        Submission::UnknownCommand("nope".to_string()),
    ] {
        assert!(
            command_for(&submission).is_none(),
            "{submission:?} should be answered by the front end"
        );
    }
}

#[test]
fn a_message_that_waited_longest_runs_first() {
    let mut w = worker();
    assert_eq!(
        w.command_while_idle(Command::Send("one".to_string())),
        IdleStep::RunQueue
    );
    w.command_while_idle(Command::Send("two".to_string()));
    assert_eq!(w.command_while_idle(Command::Cancel), IdleStep::Ignore);
    let (turn, events) = w.begin_turn().expect("a message waits");
    assert!(!turn.agentic);
    assert_eq!(
        events,
        vec![
            Event::Queued { pending: 1 },
            Event::UserMessage("one".to_string()),
            Event::Busy(true),
        ]
    );
    assert_eq!(w.session.messages().len(), 1);
    assert!(w.begin_turn().is_some());
    assert!(w.begin_turn().is_none());
}

#[test]
fn a_message_during_a_turn_waits_or_joins_it() {
    let mut w = worker();
    w.command_while_idle(Command::Send("one".to_string()));
    let (mut turn, _) = w.begin_turn().unwrap();
    assert_eq!(
        w.command_during_turn(&mut turn, Command::Send("two".to_string())),
        BusyStep::Queued(1)
    );
    turn.agentic = true;
    assert_eq!(
        w.command_during_turn(&mut turn, Command::Send("three".to_string())),
        BusyStep::Steer("three".to_string())
    );
    assert_eq!(w.waiting_with_steered(1), Event::Queued { pending: 2 });
    // What came too late for the turn waits behind what waited already.
    assert_eq!(
        w.collect_leftovers(vec!["three".to_string()]),
        Some(Event::Queued { pending: 2 })
    );
    assert_eq!(w.queue, vec!["two".to_string(), "three".to_string()]);
}

#[test]
fn a_turn_ends_with_the_report_that_it_did() {
    let mut w = worker();
    w.command_while_idle(Command::Send("one".to_string()));
    w.command_while_idle(Command::Send("two".to_string()));
    let (mut turn, _) = w.begin_turn().unwrap();
    w.turn_panicked(&mut turn, "oops");
    let (events, activity) = w.end_turn(
        &turn,
        vec!["three".to_string(), "four".to_string()],
        Err("disk full".to_string()),
    );
    assert_eq!(w.queue, ["two", "three", "four"].map(str::to_string).to_vec());
    assert_eq!(
        events,
        vec![
            Event::Queued { pending: 3 },
            Event::Agent(AgentEvent::Error {
                message: "Failed to save message: disk full".to_string()
            }),
            Event::TitleChanged {
                title: "Untitled".to_string()
            },
            Event::Busy(false),
        ]
    );
    assert_eq!(activity, Some(Activity::Failed));

    // Nothing waits, and the conversation was saved under its first words.
    let mut w = worker();
    w.command_while_idle(Command::Send("one".to_string()));
    let (turn, _) = w.begin_turn().unwrap();
    let (events, activity) = w.end_turn(&turn, vec![], Ok(()));
    assert_eq!(
        events,
        vec![
            Event::TitleChanged {
                title: "one".to_string()
            },
            Event::Busy(false),
        ]
    );
    assert_eq!(activity, None);
    assert!(w.queue.is_empty());
}

#[test]
fn an_answer_counts_only_while_something_is_asked() {
    let mut w = worker();
    let mut turn = TurnState {
        agentic: true,
        pending_approval: false,
        failed: false,
        outcome: None,
    };
    assert_eq!(
        w.command_during_turn(&mut turn, Command::Approve(true)),
        BusyStep::Ignore
    );
    let detail = Worker::approval_requested(
        &mut turn,
        &ApprovalRequest {
            tool_name: "run_terminal_command".to_string(),
            category: "terminal",
            arguments: r#"{"command":"ls"}"#.to_string(),
        },
    );
    assert_eq!(detail, "run_terminal_command: ls");
    assert_eq!(
        w.command_during_turn(&mut turn, Command::Approve(true)),
        BusyStep::Answer(true)
    );
    assert!(!turn.pending_approval);
}

#[test]
fn cancelling_drops_what_waits() {
    let mut w = worker();
    w.command_while_idle(Command::Send("one".to_string()));
    w.command_while_idle(Command::Send("two".to_string()));
    let (mut turn, _) = w.begin_turn().unwrap();
    assert_eq!(
        w.command_during_turn(&mut turn, Command::Cancel),
        BusyStep::Abort
    );
    assert_eq!(turn.outcome, Some(TurnOutcome::Cancelled));
    assert_eq!(
        w.after_turn(TurnOutcome::Cancelled),
        (false, Some(Event::Cancelled))
    );
    assert!(w.queue.is_empty());
    assert_eq!(w.after_turn(TurnOutcome::Completed), (true, None));
    Worker::commands_closed(&mut turn);
    assert_eq!(turn.outcome, Some(TurnOutcome::Disconnected));
}

#[test]
fn a_turn_hands_back_only_what_it_added() {
    let mut w = worker();
    w.command_while_idle(Command::Send("hi".to_string()));
    let (mut turn, _) = w.begin_turn().unwrap();
    let mut messages = w.session.messages().clone();
    messages.push(ChatMessage::plain("assistant", "hello".to_string()));
    let events = w.turn_finished(&mut turn, messages, Some("late".to_string()));
    assert_eq!(w.session.messages().len(), 2);
    assert_eq!(
        events,
        vec![Event::Agent(AgentEvent::Error {
            message: "late".to_string()
        })]
    );
    assert_eq!(Worker::activity_after(&turn), Some(Activity::Failed));
    assert_eq!(
        w.turn_panicked(&mut turn, "oops"),
        Event::Agent(AgentEvent::Error {
            message: "Turn failed: oops".to_string()
        })
    );
}

#[test]
fn a_setting_that_cannot_be_written_stays_and_is_reported() {
    let mut w = worker();
    let change = Change::Model("other".to_string());
    assert_eq!(
        w.change_of(&Command::SetModel("other".to_string())),
        Some(change.clone())
    );
    let events = w.make(&change, Err("disk full".to_string()));
    assert_eq!(
        events,
        vec![
            Event::Agent(AgentEvent::Error {
                message: "Failed to switch model: disk full".to_string()
            }),
            Event::ModelChanged {
                model: "test-model".to_string(),
                effort_level: None
            },
        ]
    );
    assert_eq!(
        w.make(&change, Ok(())),
        vec![Event::ModelChanged {
            model: "other".to_string(),
            effort_level: None
        }]
    );
    assert_eq!(
        w.persist(Ok(())),
        vec![Event::TitleChanged {
            title: "Untitled".to_string()
        }]
    );
}

#[test]
fn gates_follow_the_session() {
    let mut w = worker();
    let mut apply = |command: Command| {
        let change = w.change_of(&command).expect("a setting");
        w.make(&change, Ok(()))
    };
    apply(Command::SetSandbox(false));
    apply(Command::SetApproval {
        category: "terminal".to_string(),
        enabled: false,
    });
    apply(Command::SetAgentic(true));
    apply(Command::SetTemperature(Some(temperature(1.5))));
    assert_eq!(
        apply(Command::SetTitle("Named".to_string())),
        vec![Event::TitleChanged {
            title: "Named".to_string()
        }]
    );
    assert!(!w.gates.sandbox);
    assert!(!w.gates.approval.terminal);
    assert!(w.gates.approval.read_disk);
    assert!(w.agentic);
    assert!(w.session.is_agentic());
    assert_eq!(w.session.temperature(), Some(temperature(1.5)));
    assert_eq!(w.session.title(), "Named");
    // A gate has its new value at once, written or not.
    w.make(&Change::Sandbox(true), Err("disk full".to_string()));
    assert!(w.gates.sandbox);
    assert!(!w.session.sandbox());
}

#[test]
fn a_reset_sets_what_the_worker_started_with() {
    let w = Worker::new(
        session(),
        Some(7),
        Some(temperature(0.5)),
        Some("low".to_string()),
        false,
    );
    assert_eq!(
        w.change_of(&Command::ResetMaxIterations),
        Some(Change::MaxIterations(Some(7)))
    );
    assert_eq!(
        w.change_of(&Command::ResetTemperature),
        Some(Change::Temperature(Some(temperature(0.5))))
    );
    assert_eq!(
        w.change_of(&Command::ResetEffort),
        Some(Change::Effort(Some("low".to_string())))
    );
    assert_eq!(w.change_of(&Command::Cancel), None);
}
