use comms::client::ChatMessage;
use comms::interactive_chat::{
    failure_outputs, intro_lines, line_outputs, outro_line, parse_input, prompt, reply_outputs,
    save_failure, saves_of, ChatLoop, LineStep, ParsedInput, RecordedTurn, ReplyOutcome,
};
use comms::terminal_ui::Output;
use std::collections::VecDeque;

#[test]
fn parse_input_detects_exit_case_insensitively() {
    assert!(matches!(parse_input("exit"), ParsedInput::Exit));
    assert!(matches!(parse_input("EXIT"), ParsedInput::Exit));
    assert!(matches!(parse_input("  exit  "), ParsedInput::Exit));
}

#[test]
fn parse_input_treats_blank_lines_as_empty() {
    assert!(matches!(parse_input(""), ParsedInput::Empty));
    assert!(matches!(parse_input("   "), ParsedInput::Empty));
}

#[test]
fn parse_input_extracts_steer_message() {
    match parse_input("/steer actually do this instead") {
        ParsedInput::Steer(text) => assert_eq!(text, "actually do this instead"),
        _ => panic!("expected Steer"),
    }
}

#[test]
fn parse_input_bare_steer_is_empty() {
    assert!(matches!(parse_input("/steer"), ParsedInput::Empty));
    assert!(matches!(parse_input("/steer   "), ParsedInput::Empty));
}

#[test]
fn parse_input_plain_text_is_message() {
    match parse_input("what's the weather like") {
        ParsedInput::Message(text) => assert_eq!(text, "what's the weather like"),
        _ => panic!("expected Message"),
    }
}

fn idle() -> ChatLoop {
    ChatLoop {
        messages: Vec::new(),
        title_set: false,
        queue: VecDeque::new(),
        inflight: false,
    }
}

#[test]
fn a_message_is_asked_at_once_and_the_next_one_waits() {
    let mut chat = idle();
    match chat.on_line("hello") {
        LineStep::Ask { redirect, recorded } => {
            assert!(!redirect);
            assert_eq!(
                recorded,
                RecordedTurn {
                    seq: 0,
                    title: Some("hello".to_string())
                }
            );
        }
        other => panic!("{other:?}"),
    }
    assert!(chat.inflight);
    assert_eq!(chat.on_line("and then?"), LineStep::Queued(1));
    assert_eq!(chat.on_line(""), LineStep::Ignore);

    let step = chat.on_reply(ReplyOutcome::Reply(ChatMessage::plain(
        "assistant",
        "hi".to_string(),
    )));
    assert_eq!(step.shown, Some(("hi".to_string(), 1)));
    // The one that waited is asked next, and names no title again.
    assert_eq!(
        step.next,
        Some(RecordedTurn {
            seq: 2,
            title: None
        })
    );
    assert!(chat.queue.is_empty());
}

#[test]
fn steering_redirects_a_request_that_is_on_its_way() {
    let mut chat = idle();
    chat.on_line("hello");
    match chat.on_line("/steer no, this") {
        LineStep::Ask { redirect, .. } => assert!(redirect),
        other => panic!("{other:?}"),
    }
    assert_eq!(chat.on_line("exit"), LineStep::End);
    chat.on_reply(ReplyOutcome::Failed);
    assert!(!chat.inflight);
}

fn shown(outputs: &[Output]) -> String {
    outputs
        .iter()
        .map(|output| match output {
            Output::Line(spans) => {
                let line: String = spans.iter().map(|s| s.content.as_str()).collect();
                format!("{line}\n")
            }
            _ => String::new(),
        })
        .collect()
}

#[test]
fn the_chat_says_what_it_does() {
    let mut chat = idle();
    let first = chat.on_line("hello");
    assert_eq!(shown(&line_outputs(&first)), "");
    let second = chat.on_line("more");
    assert_eq!(
        shown(&line_outputs(&second)),
        "\u{2026} message queued (1 pending)\n"
    );
    let third = chat.on_line("/steer now");
    assert_eq!(
        shown(&line_outputs(&third)),
        "\u{2937} steering \u{2014} redirecting the current response\n"
    );
    let reply = chat.on_reply(ReplyOutcome::Reply(ChatMessage::plain(
        "assistant",
        "hi".to_string(),
    )));
    assert_eq!(
        shown(&reply_outputs("m", &Some("low".to_string()), &reply, 40)),
        "\nm (low): hi\n\n"
    );
    assert_eq!(
        shown(&failure_outputs(Some("timed out"))),
        "\u{2717} timed out\n\n"
    );
    assert!(failure_outputs(None).is_empty());
    let end = chat.on_line("exit");
    assert_eq!(
        shown(&line_outputs(&end)),
        "\u{2713} Chat session ended\n"
    );
    assert_eq!(
        shown(&[outro_line("abcd1234-rest")]),
        "\u{2713} Session saved. Resume with: comms chat --resume abcd1234\n"
    );
    assert!(shown(&intro_lines()).starts_with("Starting chat session"));
    let prompt: String = prompt("m", &None)
        .iter()
        .map(|s| s.content.as_str())
        .collect();
    assert_eq!(prompt, "[m] You: ");
}

#[test]
fn a_message_is_written_on_its_own_and_then_the_title() {
    let recorded = RecordedTurn {
        seq: 3,
        title: Some("Plan".to_string()),
    };
    let saves = saves_of(&recorded, "m", &Some("low".to_string()));
    assert_eq!(saves.len(), 2);
    assert_eq!(saves[0].rows.len(), 1);
    assert_eq!(saves[0].rows[0].seq, 3);
    assert_eq!(saves[0].rows[0].model, "m");
    assert_eq!(saves[0].rows[0].effort_level.as_deref(), Some("low"));
    assert_eq!(saves[0].title, None);
    assert!(saves[1].rows.is_empty());
    assert_eq!(saves[1].title.as_deref(), Some("Plan"));
    let shown = |index: usize| format!("{:?}", save_failure(&saves[index], "disk full"));
    assert!(shown(0).contains("Failed to save message: disk full"), "{}", shown(0));
    assert!(shown(1).contains("Failed to save session title: disk full"), "{}", shown(1));
    let untitled = RecordedTurn { seq: 4, title: None };
    assert_eq!(saves_of(&untitled, "m", &None).len(), 1);
}
