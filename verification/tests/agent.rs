use comms::agent::{
    denied_result, drain, drop_dangling_reasoning, enqueue, error_result, finish_chat_turn,
    get_tool_category, normalize_system_prompt, requires_approval, settle_reply, task_messages,
    AgentTurn, CallStep, Steering, TurnStep, AGENT_CHAT_SYSTEM_PROMPT,
};
use comms::client::{function_call_type, ChatMessage, FunctionCall, ToolCall};
use comms::config::{ApprovalSettings, SessionGates};
use comms::ui::AgentEvent;

fn user(text: &str) -> ChatMessage {
    ChatMessage {
        role: "user".to_string(),
        content: Some(text.to_string()),
        ..Default::default()
    }
}

fn assistant(text: &str) -> ChatMessage {
    ChatMessage {
        role: "assistant".to_string(),
        content: Some(text.to_string()),
        ..Default::default()
    }
}

fn settings(read: bool, write: bool, terminal: bool) -> ApprovalSettings {
    ApprovalSettings {
        read_disk: read,
        write_disk: write,
        terminal,
    }
}

fn call(id: &str, name: &str, arguments: &str) -> ToolCall {
    ToolCall {
        id: id.to_string(),
        call_type: function_call_type(),
        function: FunctionCall {
            name: name.to_string(),
            arguments: arguments.to_string(),
        },
    }
}

fn detail() -> Option<Vec<String>> {
    Some(vec![r#"{"type":"reasoning.text"}"#.to_string()])
}

#[test]
fn a_steered_message_joins_the_turn_as_a_user_message() {
    let mut messages = vec![user("start the work")];
    let steering = Steering::default();
    steering.push("actually, check Windows too".to_string());

    let mut turn = AgentTurn::start("test-model".to_string(), None, Some(1)).expect("a cap is set");
    assert!(turn.may_continue().is_ok());
    let events = turn.begin_iteration(steering.take(), &mut messages);

    assert_eq!(messages.len(), 2, "{messages:?}");
    assert_eq!(messages[1].role, "user");
    assert_eq!(
        messages[1].content.as_deref(),
        Some("actually, check Windows too")
    );
    assert!(events.contains(&AgentEvent::Steered {
        text: "actually, check Windows too".to_string()
    }));
    // Taken, not copied: the next iteration must not send it again.
    assert!(steering.take().is_empty());
}

#[test]
fn steering_is_shared_between_clones() {
    let worker = Steering::default();
    let loop_side = worker.clone();

    assert_eq!(worker.push("stop and check the tests".to_string()), 1);
    assert_eq!(worker.push("then keep going".to_string()), 2);

    assert_eq!(
        loop_side.take(),
        vec![
            "stop and check the tests".to_string(),
            "then keep going".to_string()
        ]
    );
}

#[test]
fn taking_drains_so_a_message_joins_exactly_one_iteration() {
    let steering = Steering::default();
    steering.push("one".to_string());
    assert_eq!(steering.take(), vec!["one".to_string()]);
    // A second iteration must not re-inject what the first already sent.
    assert!(steering.take().is_empty());
}

#[test]
fn an_idle_handle_yields_nothing() {
    assert!(Steering::default().take().is_empty());
}

#[test]
fn draining_hands_out_everything_in_order() {
    let mut pending = std::collections::VecDeque::new();
    assert_eq!(enqueue(&mut pending, "a".to_string()), 1);
    assert_eq!(enqueue(&mut pending, "b".to_string()), 2);
    assert_eq!(drain(&mut pending), vec!["a".to_string(), "b".to_string()]);
    assert!(pending.is_empty());
}

#[test]
fn agent_mode_refuses_to_run_without_an_iteration_cap() {
    let error = AgentTurn::start("test-model".to_string(), None, None)
        .expect_err("no cap is an error, not a default");
    assert!(error.contains("No max-iterations cap is set"), "{error}");
    // Says both ways out, since the fix differs by where you are.
    assert!(error.contains("/max-iterations"), "{error}");
    assert!(error.contains("clank max-iterations"), "{error}");
}

#[test]
fn categorizes_known_tools() {
    assert_eq!(get_tool_category("read_file"), "read");
    assert_eq!(get_tool_category("list_files"), "read");
    assert_eq!(get_tool_category("write_file"), "write");
    assert_eq!(get_tool_category("replace_in_file"), "write");
    assert_eq!(get_tool_category("run_terminal_command"), "terminal");
    assert_eq!(get_tool_category("something_else"), "unknown");
}

#[test]
fn requires_approval_respects_per_category_flags() {
    let all_on = settings(true, true, true);
    assert!(requires_approval("read_file", &all_on));
    assert!(requires_approval("list_files", &all_on));
    assert!(requires_approval("write_file", &all_on));
    assert!(requires_approval("replace_in_file", &all_on));
    assert!(requires_approval("run_terminal_command", &all_on));

    let all_off = settings(false, false, false);
    assert!(!requires_approval("read_file", &all_off));
    assert!(!requires_approval("list_files", &all_off));
    assert!(!requires_approval("write_file", &all_off));
    assert!(!requires_approval("replace_in_file", &all_off));
    assert!(!requires_approval("run_terminal_command", &all_off));
}

#[test]
fn requires_approval_is_independent_per_category() {
    // Only write approval enabled: read and terminal should be auto-approved,
    // write should still prompt.
    let write_only = settings(false, true, false);
    assert!(!requires_approval("read_file", &write_only));
    assert!(requires_approval("write_file", &write_only));
    assert!(!requires_approval("run_terminal_command", &write_only));
}

#[test]
fn web_fetch_never_asks() {
    assert!(!requires_approval("web_fetch", &settings(true, true, true)));
    assert!(!requires_approval(
        "web_fetch",
        &settings(false, false, false)
    ));
}

#[test]
fn unknown_tools_always_require_approval() {
    let all_off = settings(false, false, false);
    assert!(requires_approval("some_future_tool", &all_off));
}

#[test]
fn dangling_reasoning_is_dropped_without_a_tool_call() {
    let mut message = ChatMessage {
        role: "assistant".to_string(),
        content: Some("Here's my answer.".to_string()),
        reasoning: Some("thinking it through".to_string()),
        reasoning_details: detail(),
        ..Default::default()
    };
    drop_dangling_reasoning(&mut message);
    assert_eq!(message.reasoning_details, None);
    // The prose survives: it's never sent to a provider, and `/verbose`
    // still shows the thinking behind a reply that called no tool.
    assert_eq!(message.reasoning, Some("thinking it through".to_string()));
    assert_eq!(message.content, Some("Here's my answer.".to_string()));
}

#[test]
fn reasoning_is_kept_alongside_a_tool_call() {
    let mut message = ChatMessage {
        role: "assistant".to_string(),
        tool_calls: Some(vec![call("call_1", "read_file", "{}")]),
        reasoning_details: detail(),
        ..Default::default()
    };
    drop_dangling_reasoning(&mut message);
    assert!(message.reasoning_details.is_some());
}

#[test]
fn dangling_reasoning_is_dropped_with_an_empty_tool_calls_array_too() {
    let mut message = ChatMessage {
        role: "assistant".to_string(),
        content: Some("no real tool call".to_string()),
        tool_calls: Some(vec![]),
        reasoning_details: detail(),
        ..Default::default()
    };
    drop_dangling_reasoning(&mut message);
    assert_eq!(message.reasoning_details, None);
}

#[test]
fn settling_a_reply_hands_out_its_thinking() {
    let mut message = ChatMessage {
        reasoning: Some("hm".to_string()),
        reasoning_details: detail(),
        ..assistant("done")
    };
    assert_eq!(settle_reply(&mut message), Some("hm".to_string()));
    assert_eq!(message.reasoning_details, None);
}

#[test]
fn normalize_system_prompt_prepends_it_fresh_for_an_agentic_turn() {
    let mut messages = vec![user("hi"), assistant("hello")];
    normalize_system_prompt(&mut messages, true);
    assert_eq!(messages[0].role, "system");
    assert_eq!(
        messages[0].content.as_deref(),
        Some(AGENT_CHAT_SYSTEM_PROMPT)
    );
    assert_eq!(messages.len(), 3);
}

#[test]
fn normalize_system_prompt_adds_nothing_for_a_plain_turn() {
    let mut messages = vec![user("hi"), assistant("hello")];
    normalize_system_prompt(&mut messages, false);
    assert_eq!(messages.len(), 2);
    assert!(messages.iter().all(|m| m.role != "system"));
}

#[test]
fn normalize_system_prompt_heals_a_stray_copy_left_mid_conversation() {
    let stray = ChatMessage {
        role: "system".to_string(),
        content: Some(AGENT_CHAT_SYSTEM_PROMPT.to_string()),
        ..Default::default()
    };
    let mut messages = vec![user("hi"), assistant("hello"), stray, user("again")];

    normalize_system_prompt(&mut messages, false);
    assert!(messages.iter().all(|m| m.role != "system"));
    assert_eq!(messages.len(), 3);

    let mut messages = vec![
        user("hi"),
        assistant("hello"),
        ChatMessage {
            role: "system".to_string(),
            content: Some(AGENT_CHAT_SYSTEM_PROMPT.to_string()),
            ..Default::default()
        },
        user("again"),
    ];
    normalize_system_prompt(&mut messages, true);
    // Exactly one copy, and it's the fresh one at the front — not the
    // stray one left in place.
    assert_eq!(messages.iter().filter(|m| m.role == "system").count(), 1);
    assert_eq!(messages[0].role, "system");
}

#[test]
fn normalizing_twice_changes_nothing_more() {
    let mut once = vec![user("hi")];
    normalize_system_prompt(&mut once, true);
    let mut twice = once.clone();
    normalize_system_prompt(&mut twice, true);
    assert_eq!(once, twice);
}

#[test]
fn results_of_calls_that_did_not_run_are_json() {
    assert_eq!(
        error_result("no \"such\" file"),
        r#"{"error":"no \"such\" file"}"#
    );
    assert!(denied_result().contains("denied"));
    let parsed: serde_json::Value = serde_json::from_str(&error_result("a\nb")).unwrap();
    assert_eq!(parsed["error"], "a\nb");
    assert_eq!(
        error_result("\u{8}\t\n\u{c}\r\\\u{1f}\u{7f}\u{e9}/"),
        "{\"error\":\"\\b\\t\\n\\f\\r\\\\\\u001f\u{7f}\u{e9}/\"}"
    );
}

#[test]
fn every_call_of_a_reply_is_answered_once_and_in_order() {
    let gates = SessionGates::new(settings(false, true, false), true);
    let mut messages = vec![user("do it")];
    let mut turn = AgentTurn::start("m".to_string(), None, Some(2)).unwrap();
    turn.begin_iteration(Vec::new(), &mut messages);
    let reply = ChatMessage {
        role: "assistant".to_string(),
        tool_calls: Some(vec![
            call("a", "read_file", r#"{"filepath":"x"}"#),
            call("b", "write_file", "{}"),
        ]),
        ..Default::default()
    };
    let (_, step) = turn.reply(Ok(reply), &mut messages);
    assert_eq!(step, TurnStep::RunCalls);

    // The read runs without asking.
    match turn.next_call(&gates) {
        Some((AgentEvent::ToolCallStarted { name, .. }, CallStep::Run { sandbox, .. })) => {
            assert_eq!(name, "read_file");
            assert!(sandbox);
        }
        other => panic!("{other:?}"),
    }
    turn.finish_call("one".to_string(), &mut messages);

    // The write asks, and a denial is an event.
    match turn.next_call(&gates) {
        Some((_, CallStep::Ask(request))) => {
            assert_eq!(request.tool_name, "write_file");
            assert_eq!(request.category, "write");
        }
        other => panic!("{other:?}"),
    }
    assert_eq!(
        turn.answer(false, &gates),
        Err(AgentEvent::ToolCallDenied {
            name: "write_file".to_string()
        })
    );
    turn.finish_call(denied_result(), &mut messages);
    assert_eq!(turn.next_call(&gates), None);

    let ids: Vec<_> = messages
        .iter()
        .filter(|m| m.role == "tool")
        .map(|m| m.tool_call_id.clone().unwrap())
        .collect();
    assert_eq!(ids, vec!["a", "b"]);
}

#[test]
fn an_answer_ends_the_turn_and_is_what_it_returns() {
    let mut messages = vec![user("hi")];
    let mut turn = AgentTurn::start("m".to_string(), None, Some(1)).unwrap();
    turn.begin_iteration(Vec::new(), &mut messages);
    let (events, step) = turn.reply(Ok(assistant("hello")), &mut messages);
    assert_eq!(step, TurnStep::Finished(Some("hello".to_string())));
    assert!(events.contains(&AgentEvent::TurnFinished));
    assert_eq!(messages.len(), 2);
}

#[test]
fn a_failed_request_ends_the_turn_and_the_cap_stops_it() {
    let mut messages = vec![user("hi")];
    let mut turn = AgentTurn::start("m".to_string(), None, Some(1)).unwrap();
    turn.begin_iteration(Vec::new(), &mut messages);
    let (_, step) = turn.reply(Err("no network".to_string()), &mut messages);
    assert_eq!(step, TurnStep::Failed("no network".to_string()));
    assert_eq!(messages.len(), 1);
    assert_eq!(
        turn.may_continue(),
        Err("Agent exceeded max iterations".to_string())
    );
}

#[test]
fn a_chat_turn_keeps_the_reply_and_returns_its_text() {
    let mut messages = task_messages("hi");
    assert_eq!(messages, vec![user("hi")]);
    let (_, result) = finish_chat_turn(
        &"m".to_string(),
        &None,
        Ok(assistant("hello")),
        &mut messages,
    );
    assert_eq!(result, Ok(Some("hello".to_string())));
    assert_eq!(messages.len(), 2);
    let (_, result) = finish_chat_turn(
        &"m".to_string(),
        &None,
        Err("down".to_string()),
        &mut messages,
    );
    assert_eq!(result, Err("down".to_string()));
    assert_eq!(messages.len(), 2);
}

#[test]
fn a_request_is_finished_before_its_reply_is_told() {
    let mut messages = vec![user("hi")];
    let mut turn = AgentTurn::start("m".to_string(), Some("low".to_string()), Some(1)).unwrap();
    let started = turn.begin_iteration(Vec::new(), &mut messages);
    assert_eq!(
        started,
        vec![
            AgentEvent::IterationStarted { iteration: 1 },
            AgentEvent::RequestStarted
        ]
    );
    let (events, _) = turn.reply(Ok(assistant("hello")), &mut messages);
    assert_eq!(
        events,
        vec![
            AgentEvent::RequestFinished,
            AgentEvent::AssistantMessage {
                model: "m".to_string(),
                effort_level: Some("low".to_string()),
                text: "hello".to_string()
            },
            AgentEvent::TurnFinished,
        ]
    );
}
