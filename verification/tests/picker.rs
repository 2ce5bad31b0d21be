use comms::store::{mode_label, Activity, LastMessage, SessionSummary, KIND_AGENT_CHAT};
use comms::tui::picker::{
    footer_line, heading_line, naming_rows, picker_rows, relative_time, state_badge,
    Activation, LastState, LaunchItem, Picker, SessionRow, Surroundings,
};
use comms::tui::render::clip as truncate;
use comms::tui::rows::Span;

const KIND_WIDTH: usize = 7;
const BADGE_WIDTH: usize = 1;
const FRAMES: usize = 10;

fn around(width: u16) -> Surroundings {
    Surroundings {
        width,
        tick: 0,
        now: 0,
        home: None,
    }
}

fn text(spans: &[Span]) -> String {
    spans.iter().map(|span| span.content.as_str()).collect()
}


#[test]
fn the_selected_row_carries_a_band_across_the_whole_row() {
    let picker = picker_of(vec![
        row_in("00000001", KIND_AGENT_CHAT, "first", Some(HERE)),
        row_in("00000002", KIND_AGENT_CHAT, "second", Some(HERE)),
    ]);
    let rows = picker_rows(&picker, &around(70));
    let row_of = |needle: &str| {
        rows.iter()
            .find(|row| text(&row.spans).contains(needle))
            .unwrap_or_else(|| panic!("{needle} not drawn"))
    };

    // "New session" is selected by default.
    let selected = row_of("New session");
    let other = row_of("first");
    assert!(selected.band);
    assert_eq!(text(&selected.spans).chars().count(), 70);
    assert!(!other.band);
}

#[test]
fn the_kind_column_says_ask_not_chat() {
    // The stored kind is "chat"; the word everywhere a user reads it is
    // "ask", matching /ask and /agent.
    let ask = row("00000001", comms::store::KIND_CHAT, "t");
    let agent = row("00000002", KIND_AGENT_CHAT, "t");
    assert_eq!(
        comms::tui::picker::column(mode_label(ask.is_agentic()), KIND_WIDTH).trim_end(),
        "ask"
    );
    assert_eq!(
        comms::tui::picker::column(mode_label(agent.is_agentic()), KIND_WIDTH).trim_end(),
        "agent"
    );
}

#[test]
fn truncate_never_exceeds_its_limit() {
    // The ellipsis takes the place of a kept character. Returning max + 1
    // used to be enough to wrap a row whose preview was sized to the
    // space left on the line.
    assert_eq!(truncate("abcdefgh", 4).chars().count(), 4);
    assert_eq!(truncate("abcdefgh", 4), "abc…");
    assert_eq!(truncate("abcd", 4), "abcd");
    assert_eq!(truncate("abc", 4), "abc");
    assert_eq!(truncate("abc", 1), "…");
    assert_eq!(truncate("abc", 0), "");
}

#[test]
fn truncate_counts_characters_not_bytes() {
    assert_eq!(truncate("ünïcödé test", 6).chars().count(), 6);
}

#[test]
fn truncate_flattens_newlines() {
    assert_eq!(truncate("two\nlines", 20), "two lines");
}

#[test]
fn column_pads_short_values_and_keeps_a_gutter() {
    assert_eq!(comms::tui::picker::column("chat", 7), "chat   ");
    // A value wider than its column still can't touch the next one.
    let cell = comms::tui::picker::column("~/code/some/very/long/path", 24);
    assert_eq!(cell.chars().count(), 24);
    assert!(cell.ends_with("  "), "no gutter left in {cell:?}");
}
#[test]
fn a_notice_replaces_the_key_hints() {
    // A session that can't be opened has to say so where the user still
    // has other choices, rather than taking the whole TUI down.
    let mut picker = picker_of(vec![]);
    assert!(picker.notice.is_none());
    picker.notice = Some("abc123 was started in /gone, which no longer exists.".to_string());
    assert!(picker.notice.as_deref().unwrap().contains("/gone"));
    let footer = text(&footer_line(&picker, "hint", &None));
    assert!(footer.contains("/gone"), "{footer}");
    assert!(!footer.contains("hint"), "{footer}");
}

const HERE: &str = "/work/project";

fn row(id: &str, kind: &str, title: &str) -> SessionRow {
    row_in(id, kind, title, None)
}

fn row_in(id: &str, kind: &str, title: &str, dir: Option<&str>) -> SessionRow {
    SessionRow {
        id: format!("{id}-0000-0000-0000-000000000000"),
        kind: kind.to_string(),
        title: title.to_string(),
        updated_at: 0,
        working_dir: dir.map(str::to_string),
        last: None,
        activity: None,
        activity_detail: None,
    }
}

fn with_last(mut row: SessionRow, role: &str, tool_calls: bool, preview: &str) -> SessionRow {
    row.last = Some(LastMessage {
        role: role.to_string(),
        has_tool_calls: tool_calls,
        preview: preview.to_string(),
    });
    row
}

/// A picker over `rows`, as seen from `HERE`.
fn picker_of(rows: Vec<SessionRow>) -> Picker {
    Picker::launch(rows, Some(HERE))
}

#[test]
fn sessions_are_grouped_by_whether_they_belong_here() {
    let picker = picker_of(vec![
        row_in("00000001", "chat", "here", Some(HERE)),
        row_in("00000002", "chat", "away", Some("/somewhere/else")),
        row_in("00000003", "chat", "unrecorded", None),
    ]);

    let shape: Vec<String> = picker
        .items
        .iter()
        .map(|item| match item {
            LaunchItem::NewSession => "new".to_string(),
            LaunchItem::Header(label) => format!("[{label}]"),
            LaunchItem::Resume(row) => row.title.clone(),
        })
        .collect();
    assert_eq!(
        shape,
        vec![
            "new",
            "[In this directory]",
            "here",
            "[Elsewhere]",
            "away",
            // No recorded directory can't be claimed by this one.
            "unrecorded",
        ]
    );
}

#[test]
fn with_no_current_directory_nothing_is_claimed_as_here() {
    // `current_dir` can fail — a deleted cwd, a permissions problem — and
    // the list still has to render. Claiming sessions as "here" on a
    // directory we couldn't read would be worse than grouping them all
    // as elsewhere.
    let picker = Picker::launch(
        vec![row_in(
            "00000001",
            "chat",
            "somewhere",
            Some("/work/project"),
        )],
        None,
    );
    let headers: Vec<&str> = picker
        .items
        .iter()
        .filter_map(|item| match item {
            LaunchItem::Header(label) => Some(*label),
            _ => None,
        })
        .collect();
    assert_eq!(headers, vec!["Elsewhere"]);
}

#[test]
fn a_section_with_nothing_in_it_gets_no_header() {
    let picker = picker_of(vec![row_in("00000001", "chat", "away", Some("/elsewhere"))]);
    let headers: Vec<&str> = picker
        .items
        .iter()
        .filter_map(|item| match item {
            LaunchItem::Header(label) => Some(*label),
            _ => None,
        })
        .collect();
    assert_eq!(headers, vec!["Elsewhere"]);
}

#[test]
fn the_cursor_steps_over_headers() {
    let mut picker = picker_of(vec![
        row_in("00000001", "chat", "here", Some(HERE)),
        row_in("00000002", "chat", "away", Some("/elsewhere")),
    ]);
    // new → (skip header) → here → (skip header) → away
    assert!(matches!(picker.activate(), Some(Activation::NewSession)));
    picker.move_down();
    assert_eq!(picker.selected_session().unwrap().title, "here");
    picker.move_down();
    assert_eq!(picker.selected_session().unwrap().title, "away");
    // ...and back up the same way, never landing on a label.
    picker.move_up();
    assert_eq!(picker.selected_session().unwrap().title, "here");
    picker.move_up();
    assert!(matches!(picker.activate(), Some(Activation::NewSession)));
}

#[test]
fn the_last_message_says_where_a_session_stopped() {
    let base = || row_in("00000001", "chat", "t", Some(HERE));

    // Never used.
    assert_eq!(base().last_state(), LastState::New);
    // Ran to completion.
    assert_eq!(
        with_last(base(), "assistant", false, "here you go").last_state(),
        LastState::Replied
    );
    // Sent, nothing came back — running elsewhere, or it failed. The
    // messages table can't tell those apart, and this doesn't pretend to.
    assert_eq!(
        with_last(base(), "user", false, "do the thing").last_state(),
        LastState::NoReply
    );
    // Stopped part-way: a tool result with no answer after it...
    assert_eq!(
        with_last(base(), "tool", false, "{}").last_state(),
        LastState::Interrupted
    );
    // ...or a tool call that never ran.
    assert_eq!(
        with_last(base(), "assistant", true, "read_file").last_state(),
        LastState::Interrupted
    );
}

#[test]
fn a_running_process_speaks_over_the_stored_messages() {
    // The whole reason for the column: from the messages alone, a
    // request in flight and a turn that failed are the same row.
    let sent = with_last(
        row_in("00000001", "chat", "t", Some(HERE)),
        "user",
        false,
        "do the thing",
    );
    assert_eq!(sent.last_state(), LastState::NoReply);

    let mut running = sent.clone();
    running.activity = Some(Activity::Working);
    assert_eq!(running.last_state(), LastState::Working);

    let mut asking = sent.clone();
    asking.activity = Some(Activity::AwaitingApproval);
    assert_eq!(asking.last_state(), LastState::AwaitingApproval);

    let mut broken = sent.clone();
    broken.activity = Some(Activity::Failed);
    assert_eq!(broken.last_state(), LastState::Failed);
}

#[test]
fn with_nothing_said_the_messages_still_speak() {
    // No process running it, so the column is empty and the row falls
    // back to what was stored — which is the common case.
    let answered = with_last(
        row_in("00000001", "chat", "t", Some(HERE)),
        "assistant",
        false,
        "here you go",
    );
    assert_eq!(answered.activity, None);
    assert_eq!(answered.last_state(), LastState::Replied);
}

#[test]
fn the_working_badge_animates_and_stays_one_cell() {
    // It borrows the conversation's own spinner frames, so a busy
    // session looks the same from the list as from inside it — and every
    // frame still has to fit the column the other badges share.
    let frames: Vec<String> = (0..FRAMES)
        .map(|tick| state_badge(LastState::Working, tick).0.to_string())
        .collect();

    let mut distinct = frames.clone();
    distinct.sort();
    distinct.dedup();
    assert!(distinct.len() > 1, "it has to actually move: {frames:?}");
    for frame in &frames {
        assert_eq!(
            frame.chars().count(),
            BADGE_WIDTH,
            "{frame:?} is not one cell"
        );
    }
}

#[test]
fn a_still_list_has_nothing_to_animate() {
    // The picker redraws itself while this is true, so it must only be
    // true when something is actually running.
    let idle = picker_of(vec![row_in("00000001", "chat", "one", Some(HERE))]);
    assert!(!idle.has_working_session());

    let mut busy_row = row_in("00000002", "chat", "two", Some(HERE));
    busy_row.activity = Some(Activity::Working);
    assert!(picker_of(vec![busy_row]).has_working_session());
}

#[test]
fn a_pending_approval_displaces_the_conversation_preview() {
    // What the session last said matters far less than what it is stuck
    // asking — that's the row someone watching this list has to act on.
    let mut row = with_last(
        row_in("00000001", "agent_chat", "t", Some(HERE)),
        "user",
        false,
        "please tidy the build",
    );
    assert_eq!(row.preview().as_deref(), Some("please tidy the build"));

    row.activity = Some(Activity::AwaitingApproval);
    row.activity_detail = Some("run_terminal_command: rm -rf build".to_string());
    assert_eq!(
        row.preview().as_deref(),
        Some("needs approval — run_terminal_command: rm -rf build")
    );
    assert_eq!(row.last_state(), LastState::AwaitingApproval);
}

#[test]
fn an_approval_with_no_detail_still_falls_back_to_the_messages() {
    // Written by an older version, or a tool whose arguments say nothing
    // worth naming.
    let mut row = with_last(
        row_in("00000001", "agent_chat", "t", Some(HERE)),
        "user",
        false,
        "please tidy the build",
    );
    row.activity = Some(Activity::AwaitingApproval);
    assert_eq!(row.preview().as_deref(), Some("please tidy the build"));
}

#[test]
fn no_glyph_is_ambiguous_width() {
    // What kept the column ragged: a terminal may draw an
    // East-Asian-Ambiguous character two cells wide while drawing the
    // rest one. Every badge has to be a character that is one cell
    // everywhere — which rules out the obvious circles.
    const AMBIGUOUS: [char; 7] = ['●', '◐', '○', '•', '…', '→', '⊙'];
    for state in [
        LastState::New,
        LastState::Replied,
        LastState::NoReply,
        LastState::Interrupted,
        LastState::Working,
        LastState::AwaitingApproval,
        LastState::Failed,
    ] {
        // The badge is padded to a fixed width; the character itself is
        // what has to be one cell.
        let glyph = state_badge(state, 0).0;
        let ch = glyph.trim().chars().next().unwrap_or(' ');
        assert_eq!(
            glyph.trim().chars().count().max(1),
            1,
            "{state:?} is not a single char"
        );
        assert!(
            !AMBIGUOUS.contains(&ch),
            "{state:?} uses {ch:?}, which some terminals draw double-width"
        );
    }
}

#[test]
fn every_state_has_its_own_glyph() {
    // On a terminal without colour the glyph is all there is, so no two
    // states may share one.
    let glyphs: Vec<String> = [
        LastState::New,
        LastState::Replied,
        LastState::NoReply,
        LastState::Interrupted,
        LastState::Working,
        LastState::AwaitingApproval,
        LastState::Failed,
    ]
    .into_iter()
    .map(|state| state_badge(state, 0).0.to_string())
    .collect();
    let mut unique = glyphs.clone();
    unique.sort_unstable();
    unique.dedup();
    assert_eq!(unique.len(), glyphs.len(), "{glyphs:?}");
}

#[test]
fn refreshing_updates_state_without_disturbing_the_list() {
    let mut picker = picker_of(vec![
        row_in("00000001", "chat", "one", Some(HERE)),
        row_in("00000002", "chat", "two", Some(HERE)),
    ]);
    picker.move_down();
    let selected_before = picker.selected;
    let order_before: Vec<String> = picker
        .items
        .iter()
        .filter_map(|item| match item {
            LaunchItem::Resume(row) => Some(row.id.clone()),
            _ => None,
        })
        .collect();

    // Both rows come back — a refresh rebuilds the list, so anything
    // left out of `latest` is a session that was deleted.
    let moved_on = with_last(
        row_in("00000002", "chat", "two", Some(HERE)),
        "assistant",
        false,
        "all done",
    );
    assert!(picker.refresh(
        vec![row_in("00000001", "chat", "one", Some(HERE)), moved_on],
        Some(HERE)
    ));

    let states: Vec<LastState> = picker
        .items
        .iter()
        .filter_map(|item| match item {
            LaunchItem::Resume(row) => Some(row.last_state()),
            _ => None,
        })
        .collect();
    assert_eq!(states, vec![LastState::New, LastState::Replied]);

    // Nothing moved under the cursor.
    assert_eq!(picker.selected, selected_before);
    let order_after: Vec<String> = picker
        .items
        .iter()
        .filter_map(|item| match item {
            LaunchItem::Resume(row) => Some(row.id.clone()),
            _ => None,
        })
        .collect();
    assert_eq!(order_before, order_after);
}

#[test]
fn refreshing_an_unchanged_list_reports_nothing() {
    // The caller redraws on `true`, so a quiet list must stay quiet
    // rather than repainting every couple of seconds.
    let mut picker = picker_of(vec![row_in("00000001", "chat", "one", Some(HERE))]);
    let same = row_in("00000001", "chat", "one", Some(HERE));
    assert!(!picker.refresh(vec![same], Some(HERE)));
}

#[test]
fn refreshing_picks_up_sessions_added_and_removed_elsewhere() {
    // The list is worth leaving open only if it keeps up with what other
    // processes are doing to it.
    let mut picker = picker_of(vec![
        row_in("00000001", "chat", "one", Some(HERE)),
        row_in("00000002", "chat", "two", Some(HERE)),
    ]);
    picker.move_down();
    picker.move_down();
    let watched = picker.selected_session().unwrap().id.clone();

    // "one" was deleted elsewhere, "three" was started elsewhere.
    assert!(picker.refresh(
        vec![
            row_in("00000002", "chat", "two", Some(HERE)),
            row_in("00000003", "chat", "three", Some(HERE)),
        ],
        Some(HERE)
    ));

    let titles: Vec<String> = picker
        .items
        .iter()
        .filter_map(|item| match item {
            LaunchItem::Resume(row) => Some(row.title.clone()),
            _ => None,
        })
        .collect();
    assert_eq!(titles, vec!["two", "three"]);

    // The cursor followed the session it was on, not the row number it
    // happened to sit at.
    assert_eq!(picker.selected_session().unwrap().id, watched);
}

#[test]
fn losing_the_selected_session_leaves_the_cursor_somewhere_sensible() {
    let mut picker = picker_of(vec![
        row_in("00000001", "chat", "one", Some(HERE)),
        row_in("00000002", "chat", "two", Some(HERE)),
    ]);
    picker.move_down();
    picker.move_down();

    // The one being watched is deleted from under it.
    picker.refresh(
        vec![row_in("00000001", "chat", "one", Some(HERE))],
        Some(HERE),
    );

    assert!(picker.selected < picker.items.len());
    assert!(
        !matches!(picker.items[picker.selected], LaunchItem::Header(_)),
        "never left resting on a label"
    );
}

#[test]
fn a_missing_directory_offers_to_repoint() {
    // The row can't open where it says it lives, and resuming here is a
    // real answer — so it's a question, not a refusal.
    let mut picker = picker_of(vec![row_in("00000001", "chat", "t", Some("/gone"))]);
    picker.move_down();
    let row = picker.selected_session().unwrap().clone();

    picker.begin_repoint(row, "/gone".to_string());
    assert!(picker.confirming_repoint.is_some());
    // Declining leaves the session pointed where it was.
    assert!(picker.resolve_repoint(false).is_none());
    assert!(picker.confirming_repoint.is_none());

    let row = picker.selected_session().unwrap().clone();
    picker.begin_repoint(row, "/gone".to_string());
    assert!(matches!(
        picker.resolve_repoint(true),
        Some(Activation::Repoint(_))
    ));
}

#[test]
fn selection_stays_in_bounds() {
    let mut picker = picker_of(vec![row("abcd1234", "chat", "t")]);
    picker.move_up();
    assert_eq!(picker.selected, 0);
    for _ in 0..50 {
        picker.move_down();
    }
    assert_eq!(picker.selected, picker.items.len() - 1);
}

#[test]
fn activating_each_row_type() {
    let mut picker = picker_of(vec![row("abcd1234", "agent_chat", "t")]);
    assert!(matches!(picker.activate(), Some(Activation::NewSession)));
    picker.move_down();
    match picker.activate() {
        Some(Activation::Resume(r)) => assert!(r.is_agentic()),
        other => panic!("expected Resume, got {other:?}"),
    }
}

#[test]
fn with_no_sessions_there_is_still_something_to_start() {
    // A fresh install: one row, and it's the useful one.
    let picker = picker_of(vec![]);
    assert!(matches!(picker.activate(), Some(Activation::NewSession)));
    assert!(picker.selected_session().is_none());
}

#[test]
fn delete_requires_confirmation() {
    let mut picker = picker_of(vec![row("abcd1234", "chat", "t")]);
    picker.move_down();
    picker.begin_delete();
    assert!(picker.confirming_delete.is_some());
    // Declining leaves the session alone.
    assert!(picker.resolve_delete(false).is_none());
    assert!(picker.confirming_delete.is_none());

    picker.begin_delete();
    assert!(matches!(
        picker.resolve_delete(true),
        Some(Activation::Delete(_))
    ));
}

#[test]
fn delete_is_a_no_op_on_a_non_session_row() {
    // "New chat" is selected; there's nothing to delete.
    let mut picker = picker_of(vec![row("abcd1234", "chat", "t")]);
    picker.begin_delete();
    assert!(picker.confirming_delete.is_none());
}

#[test]
fn rename_is_prefilled_and_editable() {
    let mut picker = picker_of(vec![row("abcd1234", "chat", "old title")]);
    picker.move_down();
    picker.begin_rename();
    let (row, input) = picker.renaming.as_ref().unwrap();
    assert_eq!(row.id, picker.selected_session().unwrap().id);
    assert_eq!(input, "old title");

    picker.rename_backspace();
    picker.rename_backspace();
    for c in "le".chars() {
        picker.rename_insert_char(c);
    }
    assert_eq!(picker.renaming.as_ref().unwrap().1, "old title");
}

#[test]
fn confirming_a_rename_updates_the_row_and_clears_the_state() {
    let mut picker = picker_of(vec![row("abcd1234", "chat", "old title")]);
    picker.move_down();
    let id = picker.selected_session().unwrap().id.clone();
    picker.begin_rename();
    for c in " v2".chars() {
        picker.rename_insert_char(c);
    }

    let confirmed = picker.confirm_rename();
    assert_eq!(confirmed, Some((id.clone(), "old title v2".to_string())));
    assert!(picker.renaming.is_none());

    picker.apply_rename(&id, "old title v2".to_string());
    assert_eq!(picker.selected_session().unwrap().title, "old title v2");
}

#[test]
fn a_blank_rename_is_rejected_and_stays_open() {
    let mut picker = picker_of(vec![row("abcd1234", "chat", "t")]);
    picker.move_down();
    picker.begin_rename();
    picker.rename_backspace();
    assert_eq!(picker.confirm_rename(), None);
    // Still editable, not silently dropped.
    assert!(picker.renaming.is_some());
}

#[test]
fn cancelling_a_rename_leaves_the_title_alone() {
    let mut picker = picker_of(vec![row("abcd1234", "chat", "old title")]);
    picker.move_down();
    picker.begin_rename();
    picker.rename_insert_char('!');
    picker.cancel_rename();
    assert!(picker.renaming.is_none());
    assert_eq!(picker.selected_session().unwrap().title, "old title");
}

#[test]
fn rename_is_a_no_op_on_a_non_session_row() {
    let mut picker = picker_of(vec![row("abcd1234", "chat", "t")]);
    picker.begin_rename();
    assert!(picker.renaming.is_none());
}

#[test]
fn removing_a_row_keeps_the_selection_valid() {
    let rows = vec![
        row("aaaaaaaa", "chat", "one"),
        row("bbbbbbbb", "chat", "two"),
    ];
    let mut picker = picker_of(rows);
    picker.move_down();
    let id = picker.selected_session().unwrap().id.clone();
    picker.remove_session(&id);

    let remaining: Vec<&SessionRow> = picker
        .items
        .iter()
        .filter_map(|item| match item {
            LaunchItem::Resume(row) => Some(row),
            _ => None,
        })
        .collect();
    assert_eq!(remaining.len(), 1);
    assert!(picker.selected < picker.items.len());
    // Never left sitting on a label.
    assert!(!matches!(
        picker.items[picker.selected],
        LaunchItem::Header(_)
    ));
}

#[test]
fn deleting_the_last_row_of_a_section_takes_its_header_too() {
    // A header with nothing under it reads as a section that failed to
    // load, not one that's empty.
    let mut picker = picker_of(vec![
        row_in("00000001", "chat", "here", Some(HERE)),
        row_in("00000002", "chat", "away", Some("/elsewhere")),
    ]);
    let away = picker
        .items
        .iter()
        .find_map(|item| match item {
            LaunchItem::Resume(row) if row.title == "away" => Some(row.id.clone()),
            _ => None,
        })
        .unwrap();

    picker.remove_session(&away);

    let headers: Vec<&str> = picker
        .items
        .iter()
        .filter_map(|item| match item {
            LaunchItem::Header(label) => Some(*label),
            _ => None,
        })
        .collect();
    assert_eq!(headers, vec!["In this directory"]);
}

#[test]
fn relative_time_buckets() {
    let now: i64 = 1_700_000_000;
    assert_eq!(relative_time(now, now), "just now");
    assert_eq!(relative_time(now, now - 120), "2m ago");
    assert_eq!(relative_time(now, now - 7200), "2h ago");
    assert_eq!(relative_time(now, now - 172_800), "2d ago");
}

#[test]
fn months_and_the_future_have_buckets_too() {
    let now: i64 = 1_700_000_000;
    assert_eq!(relative_time(now, now - 59), "just now");
    assert_eq!(relative_time(now, now - 60), "1m ago");
    assert_eq!(relative_time(now, now - 2_592_000), "1mo ago");
    assert_eq!(relative_time(now, now + 500), "just now");
    assert_eq!(relative_time(i64::MAX, i64::MIN), format!("{}mo ago", i64::MAX / 2_592_000));
}

#[test]
fn a_row_shows_its_session_in_columns() {
    let mut busy = with_last(
        row_in("00000001", KIND_AGENT_CHAT, "Fix the parser", Some(HERE)),
        "assistant",
        false,
        "it is fixed",
    );
    busy.updated_at = -120;
    let second = row_in("00000002", "chat", "Other", Some(HERE));
    let picker = picker_of(vec![busy, second]);
    let rows = picker_rows(&picker, &around(100));
    let lines: Vec<String> = rows.iter().map(|row| text(&row.spans)).collect();
    assert_eq!(lines.len(), 5);
    assert_eq!(lines[1], "");
    assert_eq!(lines[2], "  In this directory");
    let cells: Vec<&str> = rows[3].spans.iter().map(|s| s.content.as_str()).collect();
    assert_eq!(cells[0], "  ");
    assert_eq!(cells[3], "\u{2713} ");
    assert_eq!(cells[4], "agent  ");
    assert_eq!(cells[5], "Fix the parser          ");
    assert_eq!(cells[6], "/work/project           ");
    assert_eq!(cells[7], "2m ago  ");
    assert_eq!(cells[8], "  it is fixed");
    // The directory of the section is spelled out once.
    let cells: Vec<&str> = rows[4].spans.iter().map(|s| s.content.as_str()).collect();
    assert_eq!(cells[6].trim_end(), "\u{2026}");
    assert_eq!(cells.len(), 8);
    // Without room for a preview there is none.
    let narrow = picker_rows(&picker, &around(83));
    assert_eq!(narrow[3].spans.len(), 8);
    let wide = picker_rows(&picker, &around(84));
    assert_eq!(wide[3].spans.len(), 9);
}

#[test]
fn an_empty_list_says_so() {
    let rows = picker_rows(&Picker::default(), &around(40));
    assert_eq!(text(&rows[0].spans), "  no saved sessions yet");
}

#[test]
fn the_footer_shows_what_is_asked() {
    let mut picker = picker_of(vec![row("abcd1234", "chat", "t")]);
    assert_eq!(text(&footer_line(&picker, "keys", &None)), " keys");
    picker.move_down();
    picker.begin_delete();
    assert_eq!(
        text(&footer_line(&picker, "keys", &None)),
        " delete session abcd1234 (t)? y / n"
    );
    picker.resolve_delete(false);
    let session = picker.selected_session().unwrap().clone();
    picker.begin_repoint(session, "/home/me/gone".to_string());
    assert_eq!(
        text(&footer_line(&picker, "keys", &Some("/home/me".to_string()))),
        " ~/gone is gone \u{2014} resume here instead? y / n"
    );
    picker.resolve_repoint(false);
    picker.begin_rename();
    assert_eq!(
        text(&footer_line(&picker, "keys", &None)),
        " rename to: t\u{258f}"
    );
}

#[test]
fn headings_name_the_directory() {
    assert_eq!(text(&heading_line("COMMS", &None, &None)), "COMMS");
    assert_eq!(
        text(&heading_line("COMMS", &Some("/work".to_string()), &None)),
        "COMMS  /work"
    );
    let rows = naming_rows("My title");
    assert_eq!(
        text(&rows[1].spans),
        "  Session title  My title\u{258f}"
    );
}

#[test]
fn removing_leaves_the_list_that_the_others_would_have_made() {
    let rows = || {
        vec![
            row_in("00000001", "chat", "one", Some(HERE)),
            row_in("00000002", "chat", "two", None),
            row_in("00000003", "chat", "three", Some(HERE)),
        ]
    };
    let mut picker = picker_of(rows());
    let id = rows()[0].id.clone();
    picker.remove_session(&id);
    let fresh = picker_of(rows().into_iter().skip(1).collect());
    assert_eq!(picker.items, fresh.items);
}

#[test]
fn a_summary_becomes_a_row() {
    let summary = SessionSummary {
        id: "abcd1234-rest".to_string(),
        title: "t".to_string(),
        model: "m".to_string(),
        kind: KIND_AGENT_CHAT.to_string(),
        effort_level: None,
        verbose: false,
        highlight: true,
        max_iterations: None,
        temperature: None,
        approval: Default::default(),
        sandbox: true,
        stream: true,
        working_dir: Some(HERE.to_string()),
        activity: Some(Activity::Failed),
        activity_detail: None,
        created_at: 1,
        updated_at: 2,
    };
    let row = SessionRow::from(summary);
    assert_eq!(row.short_id(), "abcd1234");
    assert!(row.is_agentic());
    assert_eq!(row.updated_at, 2);
    assert_eq!(row.last_state(), LastState::Failed);
    assert_eq!(row.last, None);
}
