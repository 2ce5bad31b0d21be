use comms::client::ChatMessage;
use comms::config::{ApprovalSettings, Temperature};
use comms::session::ChatSession;
use comms::session_loop::{
    answer_lines, apply_submission, print_transcript, read_line, resuming_lines, saved_line,
    transcript_lines, user_prompts, Defaults, Shown, Typed,
};
use comms::store::{SessionSummary, StoredMessage, KIND_CHAT};
use comms::terminal_ui::{Output, TerminalAgentUi};
use comms::ui::Submission;

fn shown(outputs: &[Output]) -> String {
    outputs
        .iter()
        .map(|output| match output {
            Output::Text(spans) => spans.iter().map(|s| s.content.as_str()).collect(),
            Output::Line(spans) => {
                let line: String = spans.iter().map(|s| s.content.as_str()).collect();
                format!("{line}\n")
            }
            _ => String::new(),
        })
        .collect()
}

fn session() -> ChatSession {
    ChatSession::create(
        "m".to_string(),
        KIND_CHAT,
        None,
        Some(20),
        None,
        ApprovalSettings::default(),
        true,
        false,
        true,
        true,
        None,
    )
}

fn defaults() -> Defaults {
    Defaults {
        max_iterations: None,
        temperature: temperature(0.5),
        effort_level: Some("low".to_string()),
    }
}

fn temperature(value: f32) -> Option<Temperature> {
    Some(Temperature {
        bits: value.to_bits(),
    })
}

fn texts() -> Shown {
    Shown {
        current: None,
        typed: Some("1.5".to_string()),
        default: Some("0.5".to_string()),
    }
}

fn apply(session: &mut ChatSession, submission: Submission) -> String {
    let mut ui = TerminalAgentUi::new(false, false);
    shown(&apply_submission(session, &mut ui, submission, &defaults(), &texts(), Ok(())).unwrap())
}

fn stored(role: &str, content: &str) -> StoredMessage {
    StoredMessage {
        message: ChatMessage::plain(role, content.to_string()),
        model: None,
        effort_level: None,
    }
}

#[test]
fn a_conversation_is_printed_as_it_went() {
    let history = vec![
        stored("system", "prompt"),
        stored("user", "hi\nthere"),
        stored("assistant", "hello"),
        stored("tool", "{}"),
        stored("user", "bye"),
    ];
    assert_eq!(
        shown(&transcript_lines(&history, 40)),
        "\u{276f} hi\n  there\n\n\u{25cf} hello\n\n\u{276f} bye\n"
    );
    assert_eq!(user_prompts(&history), vec!["hi\nthere", "bye"]);
    assert_eq!(print_transcript(&history).len(), 5);
}

#[test]
fn lines_are_told_apart() {
    assert_eq!(read_line("   ", None), Typed::Blank);
    assert_eq!(read_line("Exit", None), Typed::Exit);
    // Only the word itself ends the session.
    assert_eq!(read_line("exit now", None), Typed::Send("exit now".to_string()));
    assert_eq!(
        read_line("/verbose", None),
        Typed::Command(Submission::ToggleVerbose)
    );
    assert_eq!(
        read_line("/temp 1.5", temperature(1.5)),
        Typed::Command(Submission::SetTemperature(temperature(1.5)))
    );
}

#[test]
fn commands_change_the_session_and_say_so() {
    let mut s = session();
    assert_eq!(
        apply(&mut s, Submission::SetModel("x".to_string())),
        "\u{2713} Model set to x\n"
    );
    assert_eq!(
        apply(&mut s, Submission::SetModel("x".to_string())),
        "\u{2713} Model is x\n"
    );
    assert_eq!(apply(&mut s, Submission::ShowModel), "Model: x\n");
    assert_eq!(
        apply(&mut s, Submission::SetAgentic(true)),
        "\u{2713} Switched to agent mode (tools enabled)\n"
    );
    assert_eq!(
        apply(&mut s, Submission::SetAgentic(true)),
        "\u{2713} Already in agent mode (tools enabled)\n"
    );
    assert_eq!(
        apply(&mut s, Submission::SetEffort(None)),
        "\u{2713} Effort is default\n"
    );
    assert_eq!(
        apply(&mut s, Submission::ResetEffort),
        "\u{2713} Effort set to low\n"
    );
    assert_eq!(
        apply(&mut s, Submission::SetMaxIterations(Some(5))),
        "\u{2713} Max iterations set to 5\n"
    );
    assert_eq!(
        apply(&mut s, Submission::ResetMaxIterations),
        "\u{2713} Max iterations set to (not set)\n"
    );
    assert_eq!(
        apply(&mut s, Submission::SetMaxIterations(None)),
        "\u{2713} Max iterations is default\n"
    );
    assert_eq!(
        apply(&mut s, Submission::SetTemperature(temperature(1.5))),
        "\u{2713} Temperature set to 1.5\n"
    );
    assert_eq!(
        apply(&mut s, Submission::ResetTemperature),
        "\u{2713} Temperature set to 0.5\n"
    );
    assert_eq!(s.temperature(), temperature(0.5));
    assert_eq!(
        apply(
            &mut s,
            Submission::SetApproval {
                category: "write".to_string(),
                enabled: false
            }
        ),
        "\u{2713} Approval set to \u{2717} Auto\n"
    );
    assert!(apply(&mut s, Submission::ShowApproval).starts_with("Approval Settings:\n"));
    assert_eq!(
        apply(&mut s, Submission::SetSandbox(false)),
        "Sandbox set to off \u{2014} writes allowed anywhere\n"
    );
    assert_eq!(
        apply(&mut s, Submission::ShowSandbox),
        "Sandbox is off \u{2014} writes allowed anywhere\n"
    );
    assert_eq!(
        apply(&mut s, Submission::UnknownCommand("what?".to_string())),
        "\u{2717} what?\n"
    );
    assert_eq!(
        apply(&mut s, Submission::SetTitle("T".to_string())),
        "\u{2713} Title set to T\n"
    );
    assert_eq!(apply(&mut s, Submission::ShowTitle), "Title is T\n");
    assert_eq!(
        apply(&mut s, Submission::SetStream(false)),
        "\u{2713} Streaming set to off\n"
    );
    assert_eq!(apply(&mut s, Submission::ShowStream), "Streaming is off\n");
    assert_eq!(apply(&mut s, Submission::ShowVerbose), "Verbose is off\n");
    assert_eq!(
        apply(&mut s, Submission::ShowTemperature),
        "Temperature is none sent\n"
    );
}

#[test]
fn the_table_of_settings_is_aligned() {
    let mut s = session();
    let table = apply(&mut s, Submission::ShowStatus);
    let lines: Vec<&str> = table.lines().collect();
    assert_eq!(lines[0], "");
    assert_eq!(lines[1], "Session:");
    assert_eq!(lines[2], format!("  ID              {}", s.short_id()));
    assert!(lines.contains(&"  Max iterations  20"));
    assert_eq!(lines.last(), Some(&""));
}

#[test]
fn verbosity_reaches_the_front_end() {
    let mut s = session();
    let mut ui = TerminalAgentUi::new(false, false);
    let outputs = apply_submission(
        &mut s,
        &mut ui,
        Submission::ToggleVerbose,
        &defaults(),
        &texts(),
        Ok(()),
    )
    .unwrap();
    assert_eq!(shown(&outputs), "\u{2713} Verbose mode on\n");
    assert!(ui.verbose && s.verbose());
    let failed = apply_submission(
        &mut s,
        &mut ui,
        Submission::SetVerbose(false),
        &defaults(),
        &texts(),
        Err("locked".to_string()),
    );
    assert_eq!(failed, Err("locked".to_string()));
    assert!(ui.verbose && s.verbose());
}

#[test]
fn resuming_and_leaving_are_announced() {
    let summary = SessionSummary {
        id: "aaaaaaaa-1".to_string(),
        title: "One".to_string(),
        model: "m".to_string(),
        kind: KIND_CHAT.to_string(),
        effort_level: None,
        verbose: false,
        highlight: true,
        max_iterations: None,
        temperature: None,
        approval: ApprovalSettings::default(),
        sandbox: true,
        stream: true,
        working_dir: None,
        activity: None,
        activity_detail: None,
        created_at: 0,
        updated_at: 0,
    };
    assert_eq!(
        shown(&resuming_lines(&summary, false)),
        "\u{2713} Resuming session aaaaaaaa-1 (One)\n\n"
    );
    assert!(shown(&resuming_lines(&summary, true)).starts_with("note: Ignoring --model"));
    let s = ChatSession::resume(&summary, Vec::new(), "m".to_string());
    assert_eq!(
        shown(&[saved_line(&s)]),
        "\u{2713} Session saved. Resume with: comms session --resume aaaaaaaa\n"
    );
}

#[test]
fn an_answer_is_shown_under_its_label() {
    let reply = ChatMessage::plain("assistant", "42".to_string());
    assert_eq!(
        shown(&answer_lines("m", &None, &reply, 40)),
        "\u{2713} \n\nm:\n42\n"
    );
    let silent = ChatMessage {
        content: None,
        ..reply
    };
    assert_eq!(
        shown(&answer_lines("m", &Some("low".to_string()), &silent, 40)),
        "\u{2713} \n\nm (low):\n"
    );
}
