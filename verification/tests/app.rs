use comms::config::Temperature;
use comms::conversation::Event;
use comms::tui::app::{
    classify, App, Focus, Submission, ToolStatus, TranscriptItem,
};
use comms::ui::{AgentEvent, ApprovalRequest};

fn app() -> App {
    App::new("test-model".to_string(), None, "abcd1234".to_string())
}

fn delta(app: &mut App, text: &str) {
    app.apply(Event::Agent(AgentEvent::AssistantDelta {
        text: text.to_string(),
    }));
}

#[test]
fn deltas_accumulate_into_one_streaming_block() {
    let mut a = app();
    delta(&mut a, "Hello");
    delta(&mut a, ", world");
    assert_eq!(
        a.transcript,
        vec![TranscriptItem::Assistant {
            text: "Hello, world".to_string(),
            streaming: true,
            label: Some("test-model".to_string())
        }]
    );
}

#[test]
fn final_message_replaces_streamed_text_rather_than_duplicating() {
    let mut a = app();
    delta(&mut a, "Hel");
    delta(&mut a, "lo");
    a.apply(Event::Agent(AgentEvent::AssistantMessage {
        model: "m".into(),
        effort_level: None,
        text: "Hello".into(),
    }));
    // One block, not two, and no longer marked streaming.
    assert_eq!(
        a.transcript,
        vec![TranscriptItem::Assistant {
            text: "Hello".to_string(),
            streaming: false,
            label: Some("test-model".to_string())
        }]
    );
}

#[test]
fn works_with_streaming_off_when_only_a_final_message_arrives() {
    let mut a = app();
    a.apply(Event::Agent(AgentEvent::AssistantMessage {
        model: "m".into(),
        effort_level: None,
        text: "Whole reply".into(),
    }));
    assert_eq!(
        a.transcript,
        vec![TranscriptItem::Assistant {
            text: "Whole reply".to_string(),
            streaming: false,
            label: Some("m".to_string())
        }]
    );
}

#[test]
fn a_tool_call_closes_the_streaming_block_before_it() {
    let mut a = app();
    delta(&mut a, "I'll read that.");
    a.apply(Event::Agent(AgentEvent::ToolCallStarted {
        name: "read_file".into(),
        arguments: "{}".into(),
    }));
    assert_eq!(
        a.transcript[0],
        TranscriptItem::Assistant {
            text: "I'll read that.".to_string(),
            streaming: false,
            label: Some("test-model".to_string())
        }
    );
    assert!(matches!(
        a.transcript[1],
        TranscriptItem::ToolCall {
            status: ToolStatus::Running,
            ..
        }
    ));
}

#[test]
fn a_gated_tool_is_downgraded_to_awaiting_then_runs_once_allowed() {
    let mut a = app();
    a.apply(Event::Agent(AgentEvent::ToolCallStarted {
        name: "write_file".into(),
        arguments: "{}".into(),
    }));
    a.apply(Event::ApprovalRequested(ApprovalRequest {
        tool_name: "write_file".into(),
        category: "write",
        arguments: "{}".into(),
    }));
    assert!(matches!(
        &a.transcript[0],
        TranscriptItem::ToolCall {
            status: ToolStatus::AwaitingApproval,
            ..
        }
    ));

    a.approval_answered(true);
    assert_eq!(a.focus, Focus::Input);
    assert!(a.pending_approval.is_none());
    assert!(matches!(
        &a.transcript[0],
        TranscriptItem::ToolCall {
            status: ToolStatus::Running,
            ..
        }
    ));
}

#[test]
fn tool_status_advances_and_clears_the_approval_prompt() {
    let mut a = app();
    a.apply(Event::Agent(AgentEvent::ToolCallStarted {
        name: "write_file".into(),
        arguments: "{}".into(),
    }));
    a.apply(Event::ApprovalRequested(ApprovalRequest {
        tool_name: "write_file".into(),
        category: "write",
        arguments: "{}".into(),
    }));
    assert_eq!(a.focus, Focus::Approval);

    a.apply(Event::Agent(AgentEvent::ToolCallCompleted {
        name: "write_file".into(),
        result: r#"{"success":true}"#.into(),
    }));
    assert_eq!(a.focus, Focus::Input);
    assert!(a.pending_approval.is_none());
    assert!(matches!(
        &a.transcript[0],
        TranscriptItem::ToolCall {
            status: ToolStatus::Done { .. },
            ..
        }
    ));
}

#[test]
fn denial_marks_the_tool_denied() {
    let mut a = app();
    a.apply(Event::Agent(AgentEvent::ToolCallStarted {
        name: "write_file".into(),
        arguments: "{}".into(),
    }));
    a.apply(Event::Agent(AgentEvent::ToolCallDenied {
        name: "write_file".into(),
    }));
    assert!(matches!(
        &a.transcript[0],
        TranscriptItem::ToolCall {
            status: ToolStatus::Denied,
            ..
        }
    ));
}

#[test]
fn cancel_settles_streaming_and_pending_tools() {
    let mut a = app();
    delta(&mut a, "partial answer");
    a.apply(Event::Agent(AgentEvent::ToolCallStarted {
        name: "run_terminal_command".into(),
        arguments: "{}".into(),
    }));
    a.apply(Event::Cancelled);

    assert!(matches!(
        &a.transcript[0],
        TranscriptItem::Assistant {
            streaming: false,
            ..
        }
    ));
    assert!(matches!(
        &a.transcript[1],
        TranscriptItem::ToolCall {
            status: ToolStatus::Denied,
            ..
        }
    ));
    assert_eq!(a.transcript[2], TranscriptItem::Notice("Cancelled".into()));
    assert_eq!(a.focus, Focus::Input);
    assert_eq!(a.queued, 0);
}

#[test]
fn ending_a_turn_never_leaves_text_marked_streaming() {
    let mut a = app();
    delta(&mut a, "half a sen");
    a.apply(Event::Busy(false));
    assert!(matches!(
        &a.transcript[0],
        TranscriptItem::Assistant {
            streaming: false,
            ..
        }
    ));
}

#[test]
fn a_reply_that_something_came_behind_is_settled_too() {
    for end in [Event::Busy(false), Event::Cancelled] {
        let mut a = App::new("m".to_string(), None, "id".to_string());
        delta(&mut a, "a");
        a.apply(Event::ModelChanged {
            model: "n".to_string(),
            effort_level: None,
        });
        a.apply(end);
        assert!(matches!(
            &a.transcript[0],
            TranscriptItem::Assistant { text, streaming: false, label: Some(label) }
                if text == "a" && label == "m"
        ));
        assert!(matches!(
            &a.transcript[1],
            TranscriptItem::Notice(text) if text == "Model set to n"
        ));
    }
}

#[test]
fn errors_appear_as_their_own_block() {
    let mut a = app();
    a.apply(Event::Agent(AgentEvent::Error {
        message: "API error: 500".into(),
    }));
    assert_eq!(
        a.transcript,
        vec![TranscriptItem::Error("API error: 500".to_string())]
    );
}

// --- input editing ---------------------------------------------------

// --- /model command -------------------------------------------------

#[test]
fn app_classify_recognizes_the_model_command() {
    assert_eq!(
        classify("/model vendor/large-4.5"),
        Submission::SetModel("vendor/large-4.5".to_string())
    );
    assert_eq!(classify("/model"), Submission::ShowModel);
    assert_eq!(classify("  /model   "), Submission::ShowModel);
}

#[test]
fn app_classify_leaves_ordinary_text_and_paths_alone() {
    assert_eq!(
        classify("what does /etc/hosts do?"),
        Submission::Message("what does /etc/hosts do?".to_string())
    );
    // A leading slash that isn't a command must still reach the model,
    // since paths are common input in a coding tool.
    assert_eq!(
        classify("/usr/bin/env"),
        Submission::Message("/usr/bin/env".to_string())
    );
    // Not the command, just a word starting with it.
    assert_eq!(
        classify("/modelling is fun"),
        Submission::Message("/modelling is fun".to_string())
    );
}

#[test]
fn model_changed_updates_the_label_and_notes_it() {
    let mut a = app();
    a.apply(Event::ModelChanged {
        model: "vendor/large-4.5".to_string(),
        effort_level: Some("high".to_string()),
    });
    assert_eq!(a.model, "vendor/large-4.5");
    assert_eq!(a.label(), "vendor/large-4.5 (high)");
    assert_eq!(
        a.transcript.last(),
        Some(&TranscriptItem::Notice(
            "Model set to vendor/large-4.5 (high)".to_string()
        ))
    );
}

#[test]
fn asking_for_the_current_model_reports_rather_than_claiming_a_change() {
    let mut a = app();
    a.apply(Event::ModelChanged {
        model: "test-model".to_string(),
        effort_level: None,
    });
    assert_eq!(
        a.transcript.last(),
        Some(&TranscriptItem::Notice("Model is test-model".to_string()))
    );
}

#[test]
fn switching_models_does_not_relabel_earlier_replies() {
    let mut a = app();
    delta(&mut a, "answered by the first model");
    a.apply(Event::Busy(false));
    a.apply(Event::ModelChanged {
        model: "second-model".to_string(),
        effort_level: None,
    });
    delta(&mut a, "answered by the second");

    let labels: Vec<&str> = a
        .transcript
        .iter()
        .filter_map(|item| match item {
            TranscriptItem::Assistant { label, .. } => label.as_deref(),
            _ => None,
        })
        .collect();
    assert_eq!(labels, vec!["test-model", "second-model"]);
}

#[test]
fn blank_input_is_not_sendable() {
    let mut a = app();
    assert!(a.take_input().is_none());
    a.input = "   ".to_string();
    assert!(a.take_input().is_none());
}

#[test]
fn take_input_trims_and_clears() {
    let mut a = app();
    for c in "  hi  ".chars() {
        a.insert_char(c);
    }
    assert_eq!(a.take_input(), Some("hi".to_string()));
    assert!(a.input.is_empty());
    assert_eq!(a.cursor, 0);
}

#[test]
fn editing_handles_multibyte_characters() {
    let mut a = app();
    for c in "café".chars() {
        a.insert_char(c);
    }
    assert_eq!(a.cursor, a.input.len());
    a.backspace();
    assert_eq!(a.input, "caf");
    a.move_left();
    a.insert_char('é');
    assert_eq!(a.input, "caéf");
}

#[test]
fn cursor_movement_stops_at_the_ends() {
    let mut a = app();
    a.move_left();
    assert_eq!(a.cursor, 0);
    a.insert_char('x');
    a.move_right();
    assert_eq!(a.cursor, 1);
}

#[test]
fn typing_and_erasing_are_inverse() {
    let mut a = app();
    a.set_input("ab\u{e9}".to_string());
    a.move_left();
    let (input, cursor) = (a.input.clone(), a.cursor);
    a.insert_char('\u{1f600}');
    assert_eq!(a.input, "ab\u{1f600}\u{e9}");
    a.backspace();
    assert_eq!((a.input, a.cursor), (input, cursor));
}

#[test]
fn a_paste_lands_at_the_cursor() {
    let mut a = app();
    a.set_input("ad".to_string());
    a.move_left();
    a.paste("bc\n");
    assert_eq!(a.input, "abc\nd");
    assert_eq!(a.cursor, 4);
    assert_eq!(a.take_approval_answer(), "abc\nd");
    assert_eq!(a.input, "");
}

#[test]
fn the_arrow_keys_walk_through_what_was_said() {
    let mut a = app();
    a.history_up();
    assert_eq!(a.input, "");
    a.input_history = vec!["first".to_string(), "second".to_string()];
    a.history_up();
    assert_eq!(a.input, "second");
    a.history_up();
    assert_eq!(a.input, "first");
    a.history_up();
    assert_eq!(a.input, "first");
    a.history_down();
    assert_eq!(a.input, "second");
    a.history_down();
    assert_eq!(a.input, "");
    assert_eq!(a.recalled, None);
}

#[test]
fn settings_that_change_are_taken_over() {
    let mut a = app();
    a.apply(Event::AgenticChanged { agentic: true });
    a.apply(Event::VerboseChanged { verbose: true });
    a.apply(Event::StreamChanged { stream: false });
    a.apply(Event::MaxIterationsChanged {
        max_iterations: Some(3),
    });
    a.apply(Event::TemperatureChanged {
        temperature: Some(Temperature {
            bits: 1.0f32.to_bits(),
        }),
    });
    a.apply(Event::TitleChanged {
        title: "T".to_string(),
    });
    a.apply(Event::EffortChanged {
        effort_level: Some("low".to_string()),
    });
    a.apply(Event::Queued { pending: 2 });
    assert!(a.agentic && a.verbose && !a.stream);
    assert_eq!(a.max_iterations, Some(3));
    assert_eq!(a.temperature.map(|t| f32::from_bits(t.bits)), Some(1.0));
    assert_eq!(a.title, "T");
    assert_eq!(a.label(), "test-model (low)");
    assert_eq!(a.queued, 2);
    assert!(a.transcript.is_empty());
    assert!(a.is_pinned_to_bottom());
    a.apply(Event::SandboxChanged { sandbox: false });
    assert_eq!(
        a.transcript,
        vec![TranscriptItem::Notice(
            "Sandbox set to off \u{2014} writes allowed anywhere".to_string()
        )]
    );
}
