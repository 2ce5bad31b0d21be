use comms::client::ChatMessage;
use comms::config::ApprovalSettings;
use comms::crypto::encrypt;
use comms::store::{
    derive_title, has_user, kind_of, last_message, message_preview, mode_label, open_row,
    pick_session, read_summary, seal_row, Activity, MessageRow, SessionSummary, KIND_AGENT_CHAT, KIND_CHAT,
};

const KEY: [u8; 32] = [0xAB; 32];

fn stored(activity: Option<Activity>, activity_detail: Option<String>) -> SessionSummary {
    SessionSummary {
        id: "id".to_string(),
        title: encrypt(&KEY, "A title").unwrap(),
        model: "m".to_string(),
        kind: KIND_CHAT.to_string(),
        effort_level: None,
        verbose: false,
        highlight: true,
        max_iterations: None,
        temperature: None,
        approval: ApprovalSettings::default(),
        sandbox: true,
        stream: true,
        working_dir: None,
        activity,
        activity_detail,
        created_at: 1,
        updated_at: 2,
    }
}

fn row(content: &str) -> MessageRow {
    MessageRow {
        seq: 0,
        role: "assistant".to_string(),
        content: Some(content.to_string()),
        tool_calls: None,
        tool_call_id: None,
        model: Some("orcarouter/auto".to_string()),
        effort_level: Some("high".to_string()),
        reasoning_details: None,
        reasoning: None,
    }
}

#[test]
fn derive_title_uses_first_user_message() {
    let messages = vec![
        ChatMessage {
            role: "system".to_string(),
            content: Some("system prompt".to_string()),
            tool_calls: None,
            tool_call_id: None,
            ..Default::default()
        },
        ChatMessage {
            role: "user".to_string(),
            content: Some("Write me a snake game".to_string()),
            tool_calls: None,
            tool_call_id: None,
            ..Default::default()
        },
    ];
    assert_eq!(derive_title(&messages), "Write me a snake game");
    assert!(has_user(&messages));
}

#[test]
fn derive_title_falls_back_when_empty() {
    assert_eq!(derive_title(&vec![]), "Untitled");
    assert!(!has_user(&vec![]));
}

#[test]
fn derive_title_truncates_long_messages() {
    let long = "a".repeat(100);
    let messages = vec![ChatMessage {
        role: "user".to_string(),
        content: Some(long),
        tool_calls: None,
        tool_call_id: None,
        ..Default::default()
    }];
    let title = derive_title(&messages);
    assert!(title.ends_with("..."));
    assert_eq!(title.chars().count(), 63);
}

#[test]
fn create_and_load_session_roundtrip() {
    let rows = vec![
        MessageRow {
            role: "user".to_string(),
            ..row("hello")
        },
        row("hi there"),
    ];
    let stored: Vec<MessageRow> = rows
        .into_iter()
        .map(|r| seal_row(&KEY, r).unwrap())
        .collect();
    assert_ne!(stored[1].content, Some("hi there".to_string()));

    let loaded: Vec<MessageRow> = stored
        .into_iter()
        .map(|r| open_row(&KEY, r).unwrap())
        .collect();
    assert_eq!(loaded.len(), 2);
    assert_eq!(loaded[0].role, "user");
    assert_eq!(loaded[1].content, Some("hi there".to_string()));
    assert_eq!(loaded[1].model.as_deref(), Some("orcarouter/auto"));
    assert_eq!(loaded[1].effort_level.as_deref(), Some("high"));
}

#[test]
fn reasoning_details_round_trip_through_persistence() {
    let details = r#"[{"type":"reasoning.text","text":"checking the file first","signature":"sig-abc","index":0}]"#;
    let sealed = seal_row(
        &KEY,
        MessageRow {
            content: None,
            tool_calls: Some(r#"[{"id":"call_1"}]"#.to_string()),
            reasoning: Some("checking the file first".to_string()),
            reasoning_details: Some(details.to_string()),
            ..row("")
        },
    )
    .unwrap();
    assert_ne!(sealed.reasoning_details.as_deref(), Some(details));
    let loaded = open_row(&KEY, sealed).unwrap();
    let parsed: serde_json::Value =
        serde_json::from_str(loaded.reasoning_details.as_deref().unwrap()).unwrap();
    assert_eq!(parsed[0]["text"], "checking the file first");
    assert_eq!(parsed[0]["signature"], "sig-abc");
    assert_eq!(
        loaded.reasoning.as_deref(),
        Some("checking the file first")
    );
    assert_eq!(loaded.tool_calls.as_deref(), Some(r#"[{"id":"call_1"}]"#));
}

#[test]
fn the_last_message_of_each_session_comes_back_in_one_query() {
    let sealed = encrypt(&KEY, "first line\nsecond line").unwrap();
    let answered = last_message(&KEY, "assistant".to_string(), Some(sealed), false, None).unwrap();
    assert_eq!(answered.role, "assistant");
    assert!(!answered.has_tool_calls);
    // One line, so a row stays a row.
    assert_eq!(answered.preview, "first line");

    let sealed = encrypt(&KEY, "still going").unwrap();
    let waiting = last_message(&KEY, "user".to_string(), Some(sealed), false, None).unwrap();
    assert_eq!(waiting.role, "user");
    assert_eq!(waiting.preview, "still going");
}

#[test]
fn a_tool_call_previews_as_the_tool_it_asked_for() {
    let last = last_message(
        &KEY,
        "assistant".to_string(),
        None,
        true,
        Some(vec!["read_file".to_string()]),
    )
    .unwrap();
    assert_eq!(last.preview, "read_file");
    assert!(last.has_tool_calls);
    assert_eq!(
        message_preview(
            &Some("said".to_string()),
            &Some(vec!["read_file".to_string()])
        ),
        "said"
    );
    assert_eq!(message_preview(&None, &None), "");
}

#[test]
fn an_activity_written_by_one_process_is_readable_by_another() {
    for activity in [
        Activity::Working,
        Activity::AwaitingApproval,
        Activity::Failed,
    ] {
        assert_eq!(
            Activity::from_stored(Some(activity.as_str())),
            Some(activity)
        );
    }
    assert_eq!(Activity::from_stored(None), None);
    assert_eq!(Activity::from_stored(Some("napping")), None);

    // Stored encrypted, and handed back in the clear like the title.
    let detail = encrypt(&KEY, "run_terminal_command: rm -rf build").unwrap();
    let row = read_summary(&KEY, stored(Some(Activity::AwaitingApproval), Some(detail))).unwrap();
    assert_eq!(row.activity, Some(Activity::AwaitingApproval));
    assert_eq!(
        row.activity_detail.as_deref(),
        Some("run_terminal_command: rm -rf build")
    );

    // Cleared when the turn moves on, detail and all.
    let row = read_summary(&KEY, stored(None, None)).unwrap();
    assert_eq!(row.activity, None);
    assert_eq!(row.activity_detail, None);
}

#[test]
fn an_activity_detail_is_not_stored_in_the_clear() {
    let raw = encrypt(&KEY, "run_terminal_command: deploy --prod").unwrap();
    assert!(!raw.contains("deploy --prod"), "{raw}");
    let summary = read_summary(&KEY, stored(Some(Activity::AwaitingApproval), Some(raw))).unwrap();
    assert_eq!(summary.title, "A title");
    assert_eq!(
        summary.activity_detail.as_deref(),
        Some("run_terminal_command: deploy --prod")
    );
}

#[test]
fn a_row_sealed_with_another_key_is_refused() {
    let sealed = seal_row(&KEY, row("secret")).unwrap();
    assert!(open_row(&[1; 32], sealed).is_err());
}

#[test]
fn the_kind_says_the_mode() {
    assert_eq!(kind_of(true), KIND_AGENT_CHAT);
    assert_eq!(kind_of(false), KIND_CHAT);
    assert_eq!(mode_label(true), "agent");
    assert_eq!(mode_label(false), "ask");
}

#[test]
fn find_session_by_prefix() {
    let id = "4f2a91b2-3c1d-4e8a-9f02-7b6c5d4e3a21".to_string();
    let prefix = &id[..8];
    let ids = vec!["0b6c5d4e-3c1d-4e8a-9f02-7b6c5d4e3a21".to_string(), id.clone()];
    let found = pick_session(&ids, prefix);
    assert_eq!(ids[found.unwrap()], id);
}

#[test]
fn a_prefix_of_two_sessions_names_neither() {
    let ids: Vec<String> = ["ab", "abc", "abd", "x"].map(str::to_string).to_vec();
    assert_eq!(pick_session(&ids, "a"), None);
    assert_eq!(pick_session(&ids, "ab"), Some(0));
    assert_eq!(pick_session(&ids, "abc"), Some(1));
    assert_eq!(pick_session(&ids, "x"), Some(3));
    assert_eq!(pick_session(&ids, "y"), None);
    assert_eq!(pick_session(&ids, ""), None);
    assert_eq!(pick_session(&vec![], "x"), None);
}
