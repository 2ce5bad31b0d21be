use comms::store::Activity;
use comms::terminal_ui::{content_shown, Output, Prompt, TerminalAgentUi};
use comms::tui::rows::Span;
use comms::ui::{AgentEvent, ApprovalRequest};

fn text(spans: &[Span]) -> String {
    spans.iter().map(|span| span.content.as_str()).collect()
}

/// What the terminal shows, spinners and reports in brackets.
fn shown(outputs: &[Output]) -> String {
    outputs
        .iter()
        .map(|output| match output {
            Output::Text(spans) => text(spans),
            Output::Line(spans) => format!("{}\n", text(spans)),
            Output::StartSpinner(message) => format!("<{message}>"),
            Output::StopSpinner => "</>".to_string(),
            Output::Report { activity, detail } => format!("[{activity:?} {detail:?}]"),
        })
        .collect()
}

fn render(ui: &mut TerminalAgentUi, event: AgentEvent) -> String {
    shown(&ui.render_event(event, 40, Some("/work".to_string())))
}

fn started() -> AgentEvent {
    AgentEvent::ToolCallStarted {
        name: "read_file".to_string(),
        arguments: r#"{"filepath":"a.rs"}"#.to_string(),
    }
}

fn completed() -> AgentEvent {
    AgentEvent::ToolCallCompleted {
        name: "read_file".to_string(),
        result: r#"{"lines":3}"#.to_string(),
    }
}

fn request(arguments: &str) -> ApprovalRequest {
    ApprovalRequest {
        tool_name: "write_file".to_string(),
        category: "write",
        arguments: arguments.to_string(),
    }
}

#[test]
fn a_call_is_one_line_with_its_marker_behind_it() {
    let mut ui = TerminalAgentUi::new(false, false);
    let mut all = render(&mut ui, started());
    all += &render(&mut ui, completed());
    assert_eq!(all, "\u{1f528} read_file  a.rs \u{2713}\n\n");
}

#[test]
fn a_full_account_moves_the_marker_to_its_own_line() {
    let mut ui = TerminalAgentUi::new(true, false);
    let mut all = render(&mut ui, started());
    all += &render(&mut ui, completed());
    assert_eq!(
        all,
        "\u{1f528} read_file  a.rs\n     filepath  a.rs\n  \u{2713}\n     lines  3\n\n"
    );
}

#[test]
fn a_denied_call_says_nothing_more() {
    let mut ui = TerminalAgentUi::new(false, false);
    render(&mut ui, started());
    assert_eq!(
        render(
            &mut ui,
            AgentEvent::ToolCallDenied {
                name: "read_file".to_string()
            }
        ),
        "\n"
    );
    assert_eq!(render(&mut ui, completed()), "");
}

#[test]
fn a_call_that_was_asked_about_gets_no_marker() {
    let mut ui = TerminalAgentUi::new(false, false);
    render(&mut ui, started());
    match ui.prompt_approval(&request("{}")) {
        Prompt::Ask(outputs) => assert_eq!(
            shown(&outputs),
            " ?\n\n\u{26a0} Write to disk requested:\n  Tool: write_file\n\nAllow? [y/N]: "
        ),
        other => panic!("{other:?}"),
    }
    assert_eq!(render(&mut ui, completed()), "\n");
}

#[test]
fn the_spinner_runs_while_a_request_does() {
    let mut ui = TerminalAgentUi::new(true, false);
    assert_eq!(render(&mut ui, AgentEvent::RequestStarted), "<Thinking...>");
    assert_eq!(
        render(
            &mut ui,
            AgentEvent::Thinking {
                text: "hm".to_string()
            }
        ),
        "</>\u{1f4ad} hm\n\n"
    );
    assert_eq!(render(&mut ui, AgentEvent::RequestFinished), "");
    ui.go_headless();
    assert_eq!(render(&mut ui, AgentEvent::RequestStarted), "");
    assert!(!ui.spinning);
}

#[test]
fn replies_are_labelled_where_nothing_else_says_the_model() {
    let reply = || AgentEvent::AssistantMessage {
        model: "m".to_string(),
        effort_level: Some("high".to_string()),
        text: "one\ntwo".to_string(),
    };
    let mut ui = TerminalAgentUi::new(false, true);
    assert_eq!(render(&mut ui, reply()), "m (high): one\ntwo\n\n");
    let mut ui = TerminalAgentUi::new(false, false);
    assert_eq!(render(&mut ui, reply()), "\u{25cf} one\n  two\n\n");
    assert!(!ui.render_agent_event(reply(), None).is_empty());
}

#[test]
fn iterations_and_the_end_are_shown_in_full_accounts() {
    let mut ui = TerminalAgentUi::new(false, false);
    assert_eq!(
        render(&mut ui, AgentEvent::IterationStarted { iteration: 2 }),
        ""
    );
    assert_eq!(render(&mut ui, AgentEvent::TurnFinished), "");
    ui.set_verbose(true);
    assert_eq!(
        render(&mut ui, AgentEvent::IterationStarted { iteration: 2 }),
        "\n[Iteration 2]\n"
    );
    assert_eq!(
        render(&mut ui, AgentEvent::TurnFinished),
        "\u{2713} Agent finished\n\n"
    );
    assert_eq!(
        render(
            &mut ui,
            AgentEvent::Error {
                message: "no".to_string()
            }
        ),
        "\u{2717} no\n\n"
    );
    assert_eq!(
        render(
            &mut ui,
            AgentEvent::Steered {
                text: "go".to_string()
            }
        ),
        "\n\u{276f} go\n"
    );
    assert_eq!(
        render(
            &mut ui,
            AgentEvent::AssistantDelta {
                text: "x".to_string()
            }
        ),
        ""
    );
}

#[test]
fn nobody_is_asked_without_a_terminal() {
    let mut ui = TerminalAgentUi::new(false, false);
    ui.go_headless();
    render(&mut ui, started());
    match ui.prompt_approval(&request("{}")) {
        Prompt::Denied(outputs) => assert_eq!(
            shown(&outputs),
            " \u{2717}\n  denied: write_file needs approval, and --headless cannot ask\n"
        ),
        other => panic!("{other:?}"),
    }
}

#[test]
fn whoever_watches_is_told_what_is_asked() {
    let mut ui = TerminalAgentUi::new(false, false);
    ui.watch();
    match ui.prompt_approval(&request(r#"{"filepath":"a.rs"}"#)) {
        Prompt::Ask(outputs) => {
            assert_eq!(
                outputs[0],
                Output::Report {
                    activity: Activity::AwaitingApproval,
                    detail: Some("write_file: a.rs".to_string())
                }
            );
            assert!(shown(&outputs).contains("\n  filepath: a.rs\n"));
        }
        other => panic!("{other:?}"),
    }
    let (allowed, outputs) = ui.answered(" YES\n");
    assert!(allowed);
    assert_eq!(
        outputs,
        vec![Output::Report {
            activity: Activity::Working,
            detail: None
        }]
    );
    assert!(!ui.answered("sure").0);
}

#[test]
fn long_contents_are_cut_at_a_hundred_bytes() {
    let short = "a".repeat(100);
    assert_eq!(content_shown(&short), Some(short.clone()));
    assert_eq!(
        content_shown(&"a".repeat(101)),
        Some(format!("{short}... (101 chars)"))
    );
    // No character ends at the hundredth byte.
    let odd = format!("a{}", "\u{e9}".repeat(60));
    assert_eq!(content_shown(&odd), None);
    let mut ui = TerminalAgentUi::new(false, false);
    let arguments = format!(r#"{{"content":"{odd}"}}"#);
    assert_eq!(ui.prompt_approval(&request(&arguments)), Prompt::Unshowable);
}
