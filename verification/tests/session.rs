use comms::client::ChatMessage;
use comms::config::{ApprovalSettings, Temperature};
use comms::crypto::{decrypt, encrypt};
use comms::session::{enter_working_dir, ChatSession, EnteredDir};
use comms::store::{
    open_row, read_summary, seal_row, MessageRow, SessionSummary, KIND_AGENT_CHAT, KIND_CHAT,
};

const KEY: [u8; 32] = [0xAB; 32];

fn temperature(value: f32) -> Option<Temperature> {
    Some(Temperature {
        bits: value.to_bits(),
    })
}

/// A store in memory, which seals what it keeps.
struct Store {
    row: Option<SessionSummary>,
    messages: Vec<MessageRow>,
    broken: bool,
}

impl Store {
    fn of(session: &ChatSession) -> Self {
        let mut store = Store {
            row: None,
            messages: Vec::new(),
            broken: false,
        };
        store.record(session);
        store
    }

    fn record(&mut self, session: &ChatSession) {
        self.row = Some(SessionSummary {
            id: session.id().to_string(),
            title: encrypt(&KEY, session.title()).unwrap(),
            model: session.model().to_string(),
            kind: session.kind.clone(),
            effort_level: session.effort_level().clone(),
            verbose: session.verbose(),
            highlight: session.highlight(),
            max_iterations: session.max_iterations().map(|n| n as i64),
            temperature: session.temperature(),
            approval: *session.approval(),
            sandbox: session.sandbox(),
            stream: session.stream(),
            working_dir: session.working_dir().clone(),
            activity: None,
            activity_detail: None,
            created_at: 0,
            updated_at: 0,
        });
    }

    fn persist(&mut self, session: &mut ChatSession) -> Result<(), String> {
        let saved = self.write(session);
        session.persist_pending(saved)
    }

    fn write(&mut self, session: &ChatSession) -> Result<(), String> {
        let save = session.pending();
        if self.broken {
            return Err("no such table: messages".to_string());
        }
        for row in save.rows {
            let message = &session.messages()[row.seq];
            let sealed = seal_row(
                &KEY,
                MessageRow {
                    seq: row.seq,
                    role: message.role.clone(),
                    content: message.content.clone(),
                    tool_calls: None,
                    tool_call_id: message.tool_call_id.clone(),
                    model: Some(row.model),
                    effort_level: row.effort_level,
                    reasoning_details: None,
                    reasoning: message.reasoning.clone(),
                },
            )?;
            self.messages.push(sealed);
        }
        if let (Some(title), Some(row)) = (save.title, self.row.as_mut()) {
            row.title = encrypt(&KEY, &title)?;
        }
        Ok(())
    }

    fn load(&self) -> Vec<MessageRow> {
        self.messages
            .iter()
            .map(|row| open_row(&KEY, row.clone()).unwrap())
            .collect()
    }

    fn find(&self) -> SessionSummary {
        read_summary(&KEY, self.row.clone().expect("recorded")).unwrap()
    }

    fn resume(&self, model: &str) -> ChatSession {
        let history = self
            .load()
            .into_iter()
            .map(|row| ChatMessage {
                role: row.role,
                content: row.content,
                ..Default::default()
            })
            .collect();
        ChatSession::resume(&self.find(), history, model.to_string())
    }
}

fn memory_session() -> ChatSession {
    ChatSession::create(
        "test-model".to_string(),
        KIND_CHAT,
        Some("high".to_string()),
        Some(20),
        temperature(0.7),
        ApprovalSettings::default(),
        true,
        false,
        true,
        true,
        None,
    )
}

fn session_in(dir: Option<&str>) -> ChatSession {
    ChatSession::create(
        "test-model".to_string(),
        KIND_CHAT,
        None,
        Some(20),
        temperature(0.7),
        ApprovalSettings::default(),
        true,
        false,
        true,
        true,
        dir.map(str::to_string),
    )
}

#[test]
fn highlight_persists_so_a_later_resume_looks_the_same() {
    let mut session = memory_session();
    let mut store = Store::of(&session);
    assert!(session.highlight(), "on unless the config said otherwise");

    session.set_highlight(false, Ok(())).unwrap();
    assert!(!session.highlight());
    store.record(&session);
    assert!(!store.find().highlight, "recorded, not just held in memory");
}

#[test]
fn persists_pending_messages_once() {
    let mut session = memory_session();
    let mut store = Store::of(&session);
    session.push_user("hello".to_string());
    session.push_assistant("hi there".to_string());
    store.persist(&mut session).unwrap();

    let stored = store.load();
    assert_eq!(stored.len(), 2);
    assert_eq!(stored[0].role, "user");
    assert_eq!(stored[1].content, Some("hi there".to_string()));

    // A second call must not duplicate anything already written.
    store.persist(&mut session).unwrap();
    assert_eq!(store.load().len(), 2);
}

#[test]
fn tags_each_message_with_model_and_effort() {
    let mut session = memory_session();
    let mut store = Store::of(&session);
    session.push_user("hello".to_string());
    store.persist(&mut session).unwrap();

    let stored = store.load();
    assert_eq!(stored[0].model.as_deref(), Some("test-model"));
    assert_eq!(stored[0].effort_level.as_deref(), Some("high"));
}

#[test]
fn titles_session_from_first_user_message() {
    let mut session = memory_session();
    let mut store = Store::of(&session);
    session.push(ChatMessage {
        role: "system".to_string(),
        content: Some("system prompt".to_string()),
        tool_calls: None,
        tool_call_id: None,
        ..Default::default()
    });
    store.persist(&mut session).unwrap();
    // A system-only session has nothing to name itself after yet.
    assert_eq!(store.find().title, "Untitled");

    session.push_user("Write me a snake game".to_string());
    store.persist(&mut session).unwrap();
    assert_eq!(store.find().title, "Write me a snake game");
}

#[test]
fn title_is_not_rewritten_by_later_turns() {
    let mut session = memory_session();
    let mut store = Store::of(&session);
    session.push_user("first question".to_string());
    store.persist(&mut session).unwrap();
    session.push_user("second question".to_string());
    store.persist(&mut session).unwrap();
    assert_eq!(store.find().title, "first question");
}

#[test]
fn set_model_persists_so_a_later_resume_picks_it_up() {
    let mut session = memory_session();
    let mut store = Store::of(&session);
    session.push_user("hello".to_string());
    store.persist(&mut session).unwrap();

    assert!(session.changes_model("second-model"));
    session.set_model("second-model".to_string(), Ok(())).unwrap();
    assert_eq!(session.model(), "second-model");
    assert!(!session.changes_model("second-model"));

    store.record(&session);
    assert_eq!(store.find().model, "second-model");
}

#[test]
fn set_agentic_persists_the_kind_without_touching_history() {
    let mut session = memory_session();
    let mut store = Store::of(&session);
    assert!(!session.is_agentic());
    session.push_user("hello".to_string());
    store.persist(&mut session).unwrap();
    let messages_before = session.messages().len();

    assert!(session.changes_mode(true));
    session.set_agentic(true, Ok(())).unwrap();
    assert!(session.is_agentic());
    store.record(&session);
    assert_eq!(store.find().kind, KIND_AGENT_CHAT);
    assert_eq!(session.messages().len(), messages_before);
}

#[test]
fn set_agentic_off_leaves_prior_history_alone() {
    let mut session = memory_session();
    let mut store = Store::of(&session);
    session.set_agentic(true, Ok(())).unwrap();
    session.push_user("hello".to_string());
    store.persist(&mut session).unwrap();
    let messages_before = session.messages().len();

    session.set_agentic(false, Ok(())).unwrap();
    assert!(!session.is_agentic());
    assert_eq!(session.messages().len(), messages_before);

    store.record(&session);
    assert_eq!(store.find().kind, KIND_CHAT);
}

#[test]
fn set_effort_level_persists_and_clears() {
    let mut session = memory_session();
    let mut store = Store::of(&session);
    assert_eq!(session.effort_level().as_deref(), Some("high"));

    session
        .set_effort_level(Some("low".to_string()), Ok(()))
        .unwrap();
    assert_eq!(session.effort_level().as_deref(), Some("low"));
    store.record(&session);
    assert_eq!(store.find().effort_level, Some("low".to_string()));

    assert!(session.changes_effort_level(&None));
    session.set_effort_level(None, Ok(())).unwrap();
    assert_eq!(session.effort_level().as_deref(), None);
    store.record(&session);
    assert_eq!(store.find().effort_level, None);
}

#[test]
fn set_verbose_persists_so_a_later_resume_picks_it_up() {
    let mut session = memory_session();
    let mut store = Store::of(&session);
    assert!(!session.verbose());

    session.set_verbose(true, Ok(())).unwrap();
    assert!(session.verbose());
    store.record(&session);
    assert!(store.find().verbose);
}

#[test]
fn set_max_iterations_persists_and_clears() {
    let mut session = memory_session();
    let mut store = Store::of(&session);
    // The 20 `memory_session` created it with — a snapshot, not "unset".
    assert_eq!(session.max_iterations(), Some(20));

    session.set_max_iterations(Some(30), Ok(())).unwrap();
    assert_eq!(session.max_iterations(), Some(30));
    store.record(&session);
    assert_eq!(store.find().max_iterations, Some(30));

    session.set_max_iterations(None, Ok(())).unwrap();
    assert_eq!(session.max_iterations(), None);
    store.record(&session);
    assert_eq!(store.find().max_iterations, None);
}

#[test]
fn set_temperature_persists_and_clears() {
    let mut session = memory_session();
    let mut store = Store::of(&session);
    assert_eq!(session.temperature(), temperature(0.7));

    session.set_temperature(temperature(1.5), Ok(())).unwrap();
    assert_eq!(session.temperature(), temperature(1.5));
    store.record(&session);
    assert_eq!(store.find().temperature, temperature(1.5));

    session.set_temperature(None, Ok(())).unwrap();
    assert_eq!(session.temperature(), None);
    store.record(&session);
    assert_eq!(store.find().temperature, None);
}

#[test]
fn a_session_records_the_directory_it_started_in() {
    let dir = "/tmp".to_string();
    let session = session_in(Some(&dir));
    assert_eq!(session.working_dir().as_deref(), Some(dir.as_str()));
    assert_eq!(
        Store::of(&session).find().working_dir.as_deref(),
        Some(dir.as_str())
    );
}

#[test]
fn a_session_without_a_recorded_directory_resumes_where_it_is() {
    // Rows written before this was tracked. Refusing to resume them, or
    // moving the process somewhere arbitrary, would break sessions that
    // worked yesterday.
    let session = session_in(None);
    assert!(matches!(
        enter_working_dir(session.working_dir(), false, false),
        EnteredDir::Unchanged
    ));
}

#[test]
fn a_missing_directory_is_reported_rather_than_ignored() {
    let session = session_in(Some("/clank-no-such-directory-exists"));
    assert!(matches!(
        enter_working_dir(session.working_dir(), false, false),
        EnteredDir::Missing(_)
    ));
}

#[test]
fn a_directory_is_entered_unless_it_is_the_current_one() {
    let session = session_in(Some("/tmp"));
    assert_eq!(
        enter_working_dir(session.working_dir(), true, false),
        EnteredDir::Moved("/tmp".to_string())
    );
    assert_eq!(
        enter_working_dir(session.working_dir(), true, true),
        EnteredDir::Unchanged
    );
}

#[test]
fn repointing_a_session_records_the_new_directory() {
    let mut session = session_in(Some("/clank-no-such-directory-exists"));
    session.set_working_dir("/tmp".to_string(), Ok(())).unwrap();

    assert_eq!(session.working_dir().as_deref(), Some("/tmp"));
    assert_eq!(
        Store::of(&session).find().working_dir.as_deref(),
        Some("/tmp")
    );
}

#[test]
fn a_new_session_snapshots_the_configured_verbose_default() {
    let session = ChatSession::create(
        "test-model".to_string(),
        KIND_CHAT,
        None,
        Some(20),
        temperature(0.7),
        ApprovalSettings::default(),
        true,
        true,
        true,
        true,
        None,
    );

    assert!(session.verbose());
    assert!(
        Store::of(&session).find().verbose,
        "it has to survive a reload, not just live in memory"
    );
}

#[test]
fn a_failed_save_keeps_the_messages_pending_for_the_next_attempt() {
    let mut session = memory_session();
    let mut store = Store::of(&session);
    session.push_user("the question".to_string());

    store.broken = true;
    assert!(
        store.persist(&mut session).is_err(),
        "the save should fail"
    );

    store.broken = false;
    session.push_assistant("the answer".to_string());
    store
        .persist(&mut session)
        .expect("the retry should succeed");

    let stored = store.load();
    let text: Vec<&str> = stored.iter().filter_map(|m| m.content.as_deref()).collect();
    assert_eq!(
        text,
        vec!["the question", "the answer"],
        "the retry must save what the failed attempt did not"
    );
}

#[test]
fn a_failed_save_writes_nothing_at_all() {
    // Partial success would leave a hole in `seq`, which reads back as a
    // transcript that is simply missing a turn.
    let mut session = memory_session();
    let mut store = Store::of(&session);
    session.push_user("first".to_string());
    store.persist(&mut session).unwrap();

    session.push_user("second".to_string());
    session.push_assistant("third".to_string());
    store.broken = true;
    assert!(store.persist(&mut session).is_err());
    store.broken = false;

    assert_eq!(
        store.load().len(),
        1,
        "only the message saved before the fault"
    );
    assert_eq!(session.pending().rows.len(), 2);
}

#[test]
fn a_failed_save_does_not_claim_the_title_it_could_not_write() {
    let mut session = memory_session();
    let mut store = Store::of(&session);
    session.push_user("name me from this".to_string());
    store.broken = true;
    assert!(store.persist(&mut session).is_err());
    assert_eq!(session.title(), "Untitled", "title followed a failed write");
}

#[test]
fn set_approval_persists_and_updates_the_summary() {
    let mut session = memory_session();
    let mut store = Store::of(&session);
    assert_eq!(*session.approval(), ApprovalSettings::default());

    let custom = ApprovalSettings {
        read_disk: true,
        write_disk: false,
        terminal: false,
    };
    session.set_approval(custom.clone(), Ok(())).unwrap();
    assert_eq!(*session.approval(), custom);
    store.record(&session);
    assert_eq!(store.find().approval, custom);
}

#[test]
fn title_tracks_live_once_derived_from_the_first_message() {
    let mut session = memory_session();
    let mut store = Store::of(&session);
    assert_eq!(session.title(), "Untitled");

    session.push_user("Write me a snake game".to_string());
    store.persist(&mut session).unwrap();
    assert_eq!(session.title(), "Write me a snake game");
}

#[test]
fn set_title_persists_and_blocks_later_auto_derivation() {
    let mut session = memory_session();
    let mut store = Store::of(&session);
    session
        .set_title("My chosen title".to_string(), Ok(()))
        .unwrap();
    assert_eq!(session.title(), "My chosen title");
    store.record(&session);
    assert_eq!(store.find().title, "My chosen title");

    // A later user message must not clobber the chosen title.
    session.push_user("hello".to_string());
    store.persist(&mut session).unwrap();
    assert_eq!(session.title(), "My chosen title");
}

#[test]
fn resume_picks_up_the_persisted_title_verbose_max_iterations_and_temperature() {
    let mut session = memory_session();
    let mut store = Store::of(&session);
    session.push_user("hello".to_string());
    store.persist(&mut session).unwrap();
    session.set_verbose(true, Ok(())).unwrap();
    session.set_max_iterations(Some(30), Ok(())).unwrap();
    session.set_temperature(temperature(1.5), Ok(())).unwrap();
    store.record(&session);

    let resumed = store.resume("test-model");
    assert_eq!(resumed.title(), "hello");
    assert!(resumed.verbose());
    assert_eq!(resumed.max_iterations(), Some(30));
    assert_eq!(resumed.temperature(), temperature(1.5));
}

#[test]
fn resuming_with_a_different_model_records_the_switch() {
    let mut session = memory_session();
    let mut store = Store::of(&session);
    session.push_user("hello".to_string());
    store.persist(&mut session).unwrap();

    assert!(ChatSession::resume_records_model(
        &store.find(),
        "switched-model"
    ));
    let resumed = store.resume("switched-model");
    assert_eq!(resumed.model(), "switched-model");

    // And resuming again with no override keeps the switched model
    // rather than reverting to the original.
    store.record(&resumed);
    assert_eq!(store.find().model, "switched-model");
}

#[test]
fn an_unused_session_is_discarded() {
    let session = memory_session();
    assert!(session.discard_if_unused());
}

#[test]
fn a_named_session_is_kept_even_with_nothing_said_in_it() {
    let mut session = memory_session();
    session
        .set_title("Plan the migration".to_string(), Ok(()))
        .unwrap();
    assert!(!session.discard_if_unused());
}

#[test]
fn a_session_with_only_a_system_prompt_still_counts_as_unused() {
    let mut session = memory_session();
    let mut store = Store::of(&session);
    session
        .push_and_persist(
            ChatMessage {
                role: "system".to_string(),
                content: Some("system prompt".to_string()),
                tool_calls: None,
                tool_call_id: None,
                ..Default::default()
            },
            |session| store.write(session),
        )
        .unwrap();
    assert_eq!(store.messages.len(), 1);
    assert!(session.discard_if_unused());
}

#[test]
fn a_message_that_could_not_be_written_stays_to_be_saved() {
    let mut session = memory_session();
    let failed = session.push_and_persist(
        ChatMessage::plain("user", "hello".to_string()),
        |session| {
            assert_eq!(session.messages().len(), 1);
            Err("disk full".to_string())
        },
    );
    assert_eq!(failed, Err("disk full".to_string()));
    assert_eq!(session.pending().rows.len(), 1);
    assert_eq!(session.title(), "Untitled");

    // What a turn adds is pending too.
    session
        .messages_mut()
        .push(ChatMessage::plain("assistant", "hi".to_string()));
    assert_eq!(session.pending().rows.len(), 2);
}

#[test]
fn a_used_session_is_kept() {
    let mut session = memory_session();
    let mut store = Store::of(&session);
    session.push_user("hello".to_string());
    store.persist(&mut session).unwrap();
    assert!(!session.discard_if_unused());
}

#[test]
fn resume_restores_history_and_keeps_appending_in_order() {
    let mut session = memory_session();
    let mut store = Store::of(&session);
    session.push_user("hello".to_string());
    session.push_assistant("hi there".to_string());
    store.persist(&mut session).unwrap();

    let mut resumed = store.resume("test-model");
    assert_eq!(resumed.messages().len(), 2);

    // Resuming must not re-write the history it just loaded.
    resumed.push_user("follow up".to_string());
    store.persist(&mut resumed).unwrap();
    let stored = store.load();
    assert_eq!(stored.len(), 3);
    assert_eq!(stored[2].content, Some("follow up".to_string()));
    assert_eq!(stored[2].seq, 2);
}

#[test]
fn ids_are_long_differ_and_are_shown_by_their_start() {
    let a = memory_session();
    let b = memory_session();
    assert_eq!(a.id().len(), 36);
    assert_ne!(a.id(), b.id());
    assert_eq!(a.short_id(), &a.id()[..8]);
}

#[test]
fn a_setting_that_could_not_be_written_stays() {
    let mut session = memory_session();
    assert_eq!(
        session.set_model("x".to_string(), Err("locked".to_string())),
        Err("locked".to_string())
    );
    assert_eq!(session.model(), "test-model");
    // One that does not change needs no write at all.
    assert_eq!(
        session.set_model("test-model".to_string(), Err("locked".to_string())),
        Ok(())
    );
    assert!(session.set_sandbox(false, Err("locked".to_string())).is_err());
    assert!(session.sandbox());
    assert!(session.set_stream(false, Ok(())).is_ok());
    assert!(!session.stream());
}

#[test]
fn stored_titles_are_sealed() {
    let session = memory_session();
    let store = Store::of(&session);
    let sealed = store.row.as_ref().unwrap().title.clone();
    assert_ne!(sealed, "Untitled");
    assert_eq!(decrypt(&KEY, &sealed).unwrap(), "Untitled");
}
