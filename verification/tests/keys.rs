use comms::client::ChatMessage;
use comms::config::ApprovalSettings;
use comms::conversation::{Command, Event};
use comms::session::{ChatSession, EnteredDir};
use comms::store::{LastMessage, SessionSummary, StoredMessage, KIND_CHAT};
use comms::tui::app::{App, Focus, ToolStatus, TranscriptItem};
use comms::tui::keys::{
    handle_chat_key, handle_key, handle_mouse_scroll, handle_naming_key, handle_picker_key,
    is_typed_char, on_wake, open_failed, Key, KeyCode, KeyStep, MouseKind, Numbers, OpenFailure,
    Screen, Wake, MOUSE_SCROLL_STEP, PAGE_STEP,
};
use comms::tui::open::{
    first_message, openable, refresh_list, session_rows, show_entered, start_chat,
};
use comms::tui::picker::{picker_rows, LaunchItem, Picker, SessionRow, Surroundings};
use comms::tui::render::identicon;
use comms::tui::rows::Tone;
use comms::tui::transcript::{look_of, transcript_rows};
use comms::ui::{AgentEvent, ApprovalRequest};

fn key(code: KeyCode) -> Key {
    Key {
        code,
        control: false,
        alt: false,
        shift: false,
    }
}

fn control(c: char) -> Key {
    Key {
        control: true,
        ..key(KeyCode::Char(c))
    }
}

fn none() -> Numbers {
    Numbers {
        typed: None,
        shown: None,
    }
}

fn app() -> App {
    App::new("m".to_string(), None, "id".to_string())
}

fn typed(app: &mut App, text: &str) {
    for c in text.chars() {
        let step = handle_chat_key(app, key(KeyCode::Char(c)), &none());
        assert!(!step.leave);
        assert_eq!(step.command, None);
    }
}

fn row(id: &str, title: &str) -> SessionRow {
    SessionRow {
        id: id.to_string(),
        kind: KIND_CHAT.to_string(),
        title: title.to_string(),
        updated_at: 0,
        working_dir: None,
        last: None,
        activity: None,
        activity_detail: None,
    }
}

fn summary(id: &str, dir: Option<&str>) -> SessionSummary {
    SessionSummary {
        id: id.to_string(),
        title: "t".to_string(),
        model: "m".to_string(),
        kind: KIND_CHAT.to_string(),
        effort_level: None,
        verbose: false,
        highlight: true,
        max_iterations: None,
        temperature: None,
        approval: ApprovalSettings::default(),
        sandbox: true,
        stream: true,
        working_dir: dir.map(str::to_string),
        activity: None,
        activity_detail: None,
        created_at: 0,
        updated_at: 0,
    }
}

#[test]
fn a_blank_title_does_not_start_a_session() {
    // Naming it is the deliberate act of creating one, so Enter on an
    // empty name has nothing to do — it must not fall through to
    // starting an untitled session.
    let screen = Screen::NameSession {
        input: "   ".to_string(),
    };
    let (screen, step) = handle_key(screen, key(KeyCode::Enter), &none());
    assert_eq!(step, KeyStep::Stay);
    assert!(
        matches!(screen, Screen::NameSession { .. }),
        "a blank title should leave you on the naming screen"
    );
}

#[test]
fn a_control_chord_does_not_type_its_letter() {
    assert!(!is_typed_char(&control('v')));
}

#[test]
fn ordinary_typing_still_types() {
    assert!(is_typed_char(&key(KeyCode::Char('v'))));
    // Capitals arrive carrying SHIFT, and ALT composes real characters
    // on some layouts — neither means "not typing".
    assert!(is_typed_char(&Key {
        shift: true,
        ..key(KeyCode::Char('V'))
    }));
    assert!(is_typed_char(&Key {
        alt: true,
        ..key(KeyCode::Char('e'))
    }));
}

#[test]
fn wheel_scrolls_the_transcript_by_a_wheel_step() {
    let mut app = app();
    assert_eq!(app.scroll_back, 0);

    handle_mouse_scroll(&mut app, MouseKind::ScrollUp);
    assert_eq!(app.scroll_back, MOUSE_SCROLL_STEP);

    handle_mouse_scroll(&mut app, MouseKind::ScrollUp);
    assert_eq!(app.scroll_back, MOUSE_SCROLL_STEP * 2);

    handle_mouse_scroll(&mut app, MouseKind::ScrollDown);
    assert_eq!(app.scroll_back, MOUSE_SCROLL_STEP);
}

#[test]
fn wheel_does_not_scroll_past_the_newest_message() {
    let mut app = app();
    handle_mouse_scroll(&mut app, MouseKind::ScrollDown);
    assert_eq!(app.scroll_back, 0, "can't scroll below the newest content");
    app.scroll_back = u16::MAX;
    handle_mouse_scroll(&mut app, MouseKind::ScrollUp);
    assert_eq!(app.scroll_back, u16::MAX);
}

#[test]
fn other_mouse_events_are_ignored() {
    let mut app = app();
    handle_mouse_scroll(&mut app, MouseKind::Other);
    assert_eq!(app.scroll_back, 0);
}

#[test]
fn a_line_is_typed_and_sent() {
    let mut app = app();
    typed(&mut app, "hi");
    handle_chat_key(
        &mut app,
        Key {
            shift: true,
            ..key(KeyCode::Enter)
        },
        &none(),
    );
    typed(&mut app, "there");
    assert_eq!(app.input, "hi\nthere");
    let step = handle_chat_key(&mut app, key(KeyCode::Enter), &none());
    assert_eq!(step.command, Some(Command::Send("hi\nthere".to_string())));
    assert_eq!(app.input, "");
    // Nothing is sent of an empty box.
    let step = handle_chat_key(&mut app, key(KeyCode::Enter), &none());
    assert_eq!(step.command, None);
}

#[test]
fn commands_that_show_something_stay_on_the_screen() {
    let mut app = app();
    app.title = "My title".to_string();
    for (line, shown) in [
        ("/sandbox", "Sandbox is on"),
        ("/status", "Max iterations"),
        ("/modle x", "Did you mean"),
    ] {
        let before = app.transcript.len();
        app.set_input(line.to_string());
        let step = handle_chat_key(&mut app, key(KeyCode::Enter), &none());
        assert_eq!(step.command, None, "{line}");
        assert_eq!(app.transcript.len(), before + 1);
        let text = format!("{:?}", app.transcript.last().unwrap());
        assert!(text.contains(shown), "{line}: {text}");
    }
    app.set_input("/approval".to_string());
    handle_chat_key(&mut app, key(KeyCode::Enter), &none());
    assert_eq!(
        app.transcript.last(),
        Some(&TranscriptItem::ApprovalStatus {
            approval: ApprovalSettings::default(),
            changed: false
        })
    );
    // The model without a name is told again.
    app.set_input("/model".to_string());
    let step = handle_chat_key(&mut app, key(KeyCode::Enter), &none());
    assert_eq!(step.command, Some(Command::SetModel("m".to_string())));
    // A toggle depends on what is shown.
    app.set_input("/verbose".to_string());
    let step = handle_chat_key(&mut app, key(KeyCode::Enter), &none());
    assert_eq!(step.command, Some(Command::SetVerbose(true)));
}

#[test]
fn keys_scroll_recall_cancel_and_leave() {
    let mut app = app();
    handle_chat_key(&mut app, key(KeyCode::PageUp), &none());
    assert_eq!(app.scroll_back, PAGE_STEP);
    handle_chat_key(&mut app, key(KeyCode::PageDown), &none());
    assert_eq!(app.scroll_back, 0);
    app.scroll_back = 40;
    handle_chat_key(&mut app, key(KeyCode::End), &none());
    assert_eq!(app.scroll_back, 0);

    app.input_history = vec!["before".to_string()];
    handle_chat_key(&mut app, key(KeyCode::Up), &none());
    assert_eq!(app.input, "before");
    assert_eq!(app.cursor, app.input.len());
    handle_chat_key(&mut app, key(KeyCode::Down), &none());
    assert_eq!(app.input, "");

    assert_eq!(
        handle_chat_key(&mut app, key(KeyCode::Esc), &none()).command,
        None
    );
    app.busy = true;
    assert_eq!(
        handle_chat_key(&mut app, key(KeyCode::Esc), &none()).command,
        Some(Command::Cancel)
    );
    assert!(handle_chat_key(&mut app, control('b'), &none()).leave);
}

#[test]
fn a_question_takes_the_keys_until_it_is_answered() {
    let mut app = app();
    app.apply(Event::Agent(AgentEvent::ToolCallStarted {
        name: "write_file".to_string(),
        arguments: "{}".to_string(),
    }));
    app.apply(Event::ApprovalRequested(ApprovalRequest {
        tool_name: "write_file".to_string(),
        category: "write",
        arguments: "{}".to_string(),
    }));
    // No way out of the screen while it waits.
    assert!(!handle_chat_key(&mut app, control('b'), &none()).leave);
    typed(&mut app, "Yes ");
    let step = handle_chat_key(&mut app, key(KeyCode::Enter), &none());
    assert_eq!(step.command, Some(Command::Approve(true)));
    assert_eq!(app.focus, Focus::Input);
    assert_eq!(app.input, "");
    assert!(matches!(
        app.transcript[0],
        TranscriptItem::ToolCall {
            status: ToolStatus::Running,
            ..
        }
    ));
    app.focus = Focus::Approval;
    let step = handle_chat_key(&mut app, key(KeyCode::Enter), &none());
    assert_eq!(step.command, Some(Command::Approve(false)));
    app.focus = Focus::Approval;
    let step = handle_chat_key(&mut app, key(KeyCode::Esc), &none());
    assert_eq!(step.command, Some(Command::Cancel));
}

#[test]
fn the_list_is_walked_renamed_and_deleted_by_keys() {
    let mut picker = Picker::launch(vec![row("aaaaaaaa", "one"), row("bbbbbbbb", "two")], None);
    assert_eq!(
        handle_picker_key(&mut picker, key(KeyCode::Enter)),
        KeyStep::AskTitle
    );
    handle_picker_key(&mut picker, key(KeyCode::Char('j')));
    assert_eq!(picker.selected_session().unwrap().title, "one");
    assert_eq!(
        handle_picker_key(&mut picker, key(KeyCode::Enter)),
        KeyStep::Open(row("aaaaaaaa", "one"))
    );

    handle_picker_key(&mut picker, key(KeyCode::Char('r')));
    handle_picker_key(&mut picker, key(KeyCode::Char('q')));
    handle_picker_key(&mut picker, control('x'));
    assert_eq!(
        handle_picker_key(&mut picker, key(KeyCode::Enter)),
        KeyStep::Rename {
            id: "aaaaaaaa".to_string(),
            title: "oneq".to_string()
        }
    );

    handle_picker_key(&mut picker, key(KeyCode::Char('d')));
    assert_eq!(
        handle_picker_key(&mut picker, key(KeyCode::Char('q'))),
        KeyStep::Stay
    );
    handle_picker_key(&mut picker, key(KeyCode::Char('d')));
    assert_eq!(
        handle_picker_key(&mut picker, key(KeyCode::Char('Y'))),
        KeyStep::Delete(row("aaaaaaaa", "one"))
    );
    assert_eq!(
        handle_picker_key(&mut picker, key(KeyCode::Char('q'))),
        KeyStep::Quit
    );
}

#[test]
fn a_session_whose_directory_is_gone_is_asked_about() {
    let mut picker = Picker::launch(vec![row("aaaaaaaa", "one")], None);
    open_failed(
        &mut picker,
        row("aaaaaaaa", "one"),
        OpenFailure::MissingDir("/gone".to_string()),
    );
    assert_eq!(
        handle_picker_key(&mut picker, key(KeyCode::Char('y'))),
        KeyStep::OpenHere(row("aaaaaaaa", "one"))
    );
    open_failed(
        &mut picker,
        row("aaaaaaaa", "one"),
        OpenFailure::Other("locked".to_string()),
    );
    assert_eq!(picker.notice.as_deref(), Some("locked"));
}

#[test]
fn a_title_is_typed_and_starts_a_session() {
    let mut input = String::new();
    for c in " ok!".chars() {
        handle_naming_key(&mut input, key(KeyCode::Char(c)));
    }
    handle_naming_key(&mut input, key(KeyCode::Backspace));
    handle_naming_key(&mut input, control('v'));
    assert_eq!(
        handle_naming_key(&mut input, key(KeyCode::Enter)),
        KeyStep::Start {
            title: "ok".to_string()
        }
    );
    assert_eq!(
        handle_naming_key(&mut input, key(KeyCode::Esc)),
        KeyStep::ShowList
    );
}

#[test]
fn control_c_quits_everywhere() {
    for screen in [
        Screen::Launch(Picker::default()),
        Screen::NameSession {
            input: String::new(),
        },
        Screen::Chat(app()),
    ] {
        assert_eq!(handle_key(screen, control('c'), &none()).1, KeyStep::Quit);
    }
    let (_, step) = handle_key(Screen::Chat(app()), control('b'), &none());
    assert_eq!(step, KeyStep::LeaveChat);
    let (screen, step) = handle_key(
        Screen::Launch(Picker::launch(Vec::new(), None)),
        key(KeyCode::Enter),
        &none(),
    );
    assert_eq!(step, KeyStep::AskTitle);
    assert!(matches!(screen, Screen::NameSession { .. }));
}

#[test]
fn only_what_moves_is_drawn_again() {
    let step = on_wake(Screen::Chat(app()), Wake::Tick, 7, &none());
    assert!(!step.dirty);
    assert_eq!(step.tick, 7);
    let mut busy = app();
    busy.busy = true;
    let step = on_wake(Screen::Chat(busy), Wake::Tick, usize::MAX, &none());
    assert!(step.dirty);
    assert_eq!(step.tick, 0);
    assert!(on_wake(step.screen, Wake::Resize, 0, &none()).dirty);
    assert!(!on_wake(Screen::Chat(app()), Wake::Ignored, 0, &none()).dirty);
    assert!(!on_wake(Screen::Chat(app()), Wake::Closed, 0, &none()).dirty);
    assert!(
        !on_wake(
            Screen::Launch(Picker::default()),
            Wake::Mouse(MouseKind::ScrollUp),
            0,
            &none()
        )
        .dirty
    );
    let step = on_wake(
        Screen::Chat(app()),
        Wake::Paste("pasted".to_string()),
        0,
        &none(),
    );
    match step.screen {
        Screen::Chat(app) => assert_eq!(app.input, "pasted"),
        other => panic!("{other:?}"),
    }
    let step = on_wake(
        Screen::Chat(app()),
        Wake::Conversation(Event::Busy(true)),
        0,
        &none(),
    );
    match step.screen {
        Screen::Chat(app) => assert!(app.busy),
        other => panic!("{other:?}"),
    }
}

// --- Opening ---------------------------------------------------------

fn stored(role: &str, content: &str) -> StoredMessage {
    StoredMessage {
        message: ChatMessage::plain(role, content.to_string()),
        model: Some("m".to_string()),
        effort_level: Some("low".to_string()),
    }
}

#[test]
fn a_resumed_session_shows_what_was_said() {
    let session = ChatSession::resume(
        &summary("abcd1234-rest", None),
        Vec::new(),
        "m".to_string(),
    );
    let mut answer = stored("assistant", "hello");
    answer.message.reasoning = Some("thinking".to_string());
    let app = start_chat(
        &session,
        &vec![
            stored("system", "prompt"),
            stored("user", "hi"),
            answer,
            stored("assistant", "   "),
        ],
        true,
    );
    assert_eq!(app.session_id, "abcd1234-rest");
    assert_eq!(app.short_id(), "abcd1234");
    // The replies carry the mark of the session's row.
    let list = Picker::launch(vec![row("abcd1234-rest", "A title")], None);
    let around = Surroundings {
        width: 80,
        tick: 0,
        now: 0,
        home: None,
    };
    let (mark, colour) = identicon("abcd1234-rest");
    assert!(picker_rows(&list, &around).iter().any(|row| {
        row.spans.len() > 1
            && row.spans[1].content == mark
            && row.spans[1].tone == Tone::Indexed(colour)
    }));
    let rows = transcript_rows(&app.transcript, &look_of(&app, 80, None));
    assert!(rows.iter().any(|row| {
        row.spans.first().is_some_and(|first| {
            first.content == format!("{mark} ") && first.tone == Tone::Indexed(colour)
        })
    }));
    assert!(app.agentic);
    assert_eq!(app.input_history, vec!["hi".to_string()]);
    assert_eq!(
        app.transcript,
        vec![
            TranscriptItem::User("hi".to_string()),
            TranscriptItem::Thinking("thinking".to_string()),
            TranscriptItem::Assistant {
                text: "hello".to_string(),
                streaming: false,
                label: Some("m (low)".to_string())
            },
        ]
    );
}

#[test]
fn only_a_session_with_tools_starts_with_instructions() {
    assert_eq!(first_message(false), None);
    assert_eq!(first_message(true).unwrap().role, "system");
}

#[test]
fn where_a_session_runs_is_said() {
    let mut app = app();
    show_entered(&mut app, EnteredDir::Unchanged);
    assert!(app.transcript.is_empty());
    show_entered(&mut app, EnteredDir::Moved("/work".to_string()));
    assert_eq!(
        app.transcript,
        vec![TranscriptItem::Notice(
            "Working directory: /work".to_string()
        )]
    );
    show_entered(&mut app, EnteredDir::Missing("/gone".to_string()));
    assert!(matches!(&app.transcript[1], TranscriptItem::Error(text) if text.contains("/gone")));
}

#[test]
fn a_session_is_opened_only_where_it_lives() {
    let row = row("abcd1234-rest", "t");
    assert_eq!(
        openable(&row, None, true).unwrap_err(),
        OpenFailure::Other("Session abcd1234 no longer exists".to_string())
    );
    assert_eq!(
        openable(&row, Some(summary("abcd1234-rest", Some("/gone"))), false).unwrap_err(),
        OpenFailure::MissingDir("/gone".to_string())
    );
    assert!(openable(&row, Some(summary("abcd1234-rest", None)), false).is_ok());
    assert!(openable(&row, Some(summary("abcd1234-rest", Some("/w"))), true).is_ok());
}

#[test]
fn each_session_gets_its_own_last_message() {
    let last = |preview: &str| LastMessage {
        role: "user".to_string(),
        has_tool_calls: false,
        preview: preview.to_string(),
    };
    let rows = session_rows(
        vec![summary("a", None), summary("b", None), summary("c", None)],
        vec![
            ("c".to_string(), last("third")),
            ("a".to_string(), last("first")),
        ],
    );
    let previews: Vec<Option<String>> = rows.iter().map(|row| row.preview()).collect();
    assert_eq!(
        previews,
        vec![
            Some("first".to_string()),
            None,
            Some("third".to_string())
        ]
    );
    let (screen, changed) = refresh_list(Screen::Launch(Picker::default()), rows, None);
    assert!(changed);
    match screen {
        Screen::Launch(picker) => {
            assert_eq!(picker.items.len(), 5);
            assert_eq!(picker.items[0], LaunchItem::NewSession);
        }
        other => panic!("{other:?}"),
    }
    assert!(!refresh_list(Screen::Chat(app()), Vec::new(), None).1);
}
