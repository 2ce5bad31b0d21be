//! What the keys, the mouse and the clock do to the screen that is shown.

use vstd::prelude::*;
use vstd::string::*;

use crate::config::Temperature;
use crate::conversation::{command_for, Command, Event};
use crate::offsets::{byte_width, shown_id};
use crate::text::{chars_of, lowercase, opt_view, string_of, trim, trim_chars};
use crate::tui::app::{App, Focus, ItemView, TranscriptItem};
use crate::tui::picker::{is_working, Activation, LaunchItem, Picker, SessionRow};
use crate::ui::{
    classify, is_yes, notice, notice_text, on_off_text, parse_yes_no, reading, sandbox_notice,
    sandbox_state_text, session_settings_rows, settings_table, table_of, SessionSettings,
    Submission, SubmissionView,
};

verus! {

/// A key, as far as any screen knows it.
#[derive(Debug, Clone, Copy, PartialEq, Eq, Structural)]
pub enum KeyCode {
    Char(char),
    Enter,
    Esc,
    Backspace,
    Left,
    Right,
    Up,
    Down,
    PageUp,
    PageDown,
    End,
    /// Any other, which does nothing.
    Other,
}

/// A key with what was held down beside it.
#[derive(Debug, Clone, Copy, PartialEq, Eq, Structural)]
pub struct Key {
    pub code: KeyCode,
    pub control: bool,
    pub alt: bool,
    pub shift: bool,
}

/// What the mouse did.
#[derive(Debug, Clone, Copy, PartialEq, Eq, Structural)]
pub enum MouseKind {
    ScrollUp,
    ScrollDown,
    Other,
}

/// What the numbers of a line come to in floating point: the argument of a
/// temperature command on it, and the temperature in force as it is shown.
pub struct Numbers {
    pub typed: Option<Temperature>,
    pub shown: Option<String>,
}

/// Lines that one step of the wheel scrolls.
pub const MOUSE_SCROLL_STEP: u16 = 3;

/// Lines that a page key scrolls.
pub const PAGE_STEP: u16 = 5;

/// Whether a character key types its character: with control held it is a
/// command.
pub fn is_typed_char(key: &Key) -> (r: bool)
    ensures
        r == !key.control,
{
    !key.control
}

/// The lines scrolled back after a step up, at most as many as can be counted.
pub open spec fn scrolled_up(lines: u16, step: u16) -> int {
    if lines + step > u16::MAX {
        u16::MAX as int
    } else {
        lines + step
    }
}

/// The lines scrolled back after a step down, at least none.
pub open spec fn scrolled_down(lines: u16, step: u16) -> int {
    if lines < step {
        0
    } else {
        lines - step
    }
}

/// Scrolls with the wheel.
pub fn handle_mouse_scroll(app: &mut App, kind: MouseKind)
    ensures
        *final(app) == (App { scroll_back: final(app).scroll_back, ..*old(app) }),
        final(app).scroll_back == match kind {
            MouseKind::ScrollUp => scrolled_up(old(app).scroll_back, MOUSE_SCROLL_STEP),
            MouseKind::ScrollDown => scrolled_down(old(app).scroll_back, MOUSE_SCROLL_STEP),
            MouseKind::Other => old(app).scroll_back as int,
        },
{
    match kind {
        MouseKind::ScrollUp => {
            app.scroll_back = app.scroll_back.saturating_add(MOUSE_SCROLL_STEP);
        },
        MouseKind::ScrollDown => {
            app.scroll_back = app.scroll_back.saturating_sub(MOUSE_SCROLL_STEP);
        },
        MouseKind::Other => {},
    }
}

/// Scrolling down undoes scrolling up, as long as the count did not run out.
pub proof fn scrolling_down_undoes_scrolling_up(lines: u16, step: u16)
    requires
        lines + step <= u16::MAX,
    ensures
        scrolled_down(scrolled_up(lines, step) as u16, step) == lines,
{
}

// ---------------------------------------------------------------------------
// The conversation
// ---------------------------------------------------------------------------

/// What a key on the conversation screen asks for.
#[derive(Debug, Clone, PartialEq, Eq)]
pub struct ChatStep {
    /// Whether the screen is left for the list of sessions.
    pub leave: bool,
    /// What the worker is told.
    pub command: Option<Command>,
}

/// The screen with another text in the box, and nothing else changed.
pub open spec fn edited(before: App, after: App, input: Seq<char>, caret: int) -> bool {
    &&& after.wf()
    &&& after.input@ == input
    &&& after.caret() == caret
    &&& after == (App { input: after.input, cursor: after.cursor, ..before })
}

/// Whether a key edits the text in the box.
pub open spec fn is_editing(key: Key) -> bool {
    match key.code {
        KeyCode::Backspace | KeyCode::Left | KeyCode::Right => true,
        KeyCode::Char(_) => !key.control,
        _ => false,
    }
}

/// What an editing key does: it types, erases or moves at the cursor, and the
/// cursor stops at the ends.
pub open spec fn edits(before: App, after: App, code: KeyCode) -> bool {
    let at = before.caret();
    match code {
        KeyCode::Char(c) => edited(before, after, before.input@.insert(at, c), at + 1),
        KeyCode::Backspace => if at > 0 {
            edited(before, after, before.input@.remove(at - 1), at - 1)
        } else {
            after == before
        },
        KeyCode::Left => edited(
            before,
            after,
            before.input@,
            if at > 0 {
                at - 1
            } else {
                0
            },
        ),
        KeyCode::Right => edited(
            before,
            after,
            before.input@,
            if at < before.input@.len() {
                at + 1
            } else {
                at
            },
        ),
        _ => after == before,
    }
}

/// The box has room for another character.
pub open spec fn has_room(app: App) -> bool {
    &&& app.wf()
    &&& byte_width(app.input@) + 4 <= usize::MAX
}

fn edit(app: &mut App, code: KeyCode)
    requires
        has_room(*old(app)),
    ensures
        edits(*old(app), *final(app), code),
        final(app).wf(),
{
    match code {
        KeyCode::Char(c) => app.insert_char(c),
        KeyCode::Backspace => app.backspace(),
        KeyCode::Left => app.move_left(),
        KeyCode::Right => app.move_right(),
        _ => {},
    }
}

/// The answer to a question about a tool call: the only an explicit yes allows it.
pub open spec fn answers_question(before: App, after: App, key: Key, step: ChatStep) -> bool {
    match key.code {
        KeyCode::Enter => {
            let allowed = is_yes(lowercase(trim(before.input@)));
            &&& step == (ChatStep { leave: false, command: Some(Command::Approve(allowed)) })
            &&& after.wf()
            &&& after.input@.len() == 0
            &&& after.blocks() == if allowed {
                crate::tui::app::with_status(
                    before.blocks(),
                    crate::tui::app::StatusView::Running,
                )
            } else {
                before.blocks()
            }
            &&& after == (App {
                transcript: after.transcript,
                input: after.input,
                cursor: 0,
                pending_approval: None,
                focus: Focus::Input,
                ..before
            })
        },
        KeyCode::Esc => {
            &&& step == (ChatStep { leave: false, command: Some(Command::Cancel) })
            &&& after == before
        },
        _ => {
            &&& step == (ChatStep { leave: false, command: None })
            &&& if is_editing(key) {
                edits(before, after, key.code)
            } else {
                after == before
            }
        },
    }
}

fn answer_question(app: &mut App, key: Key) -> (r: ChatStep)
    requires
        has_room(*old(app)),
    ensures
        answers_question(*old(app), *final(app), key, r),
        final(app).wf(),
{
    let mut command: Option<Command> = None;
    match key.code {
        KeyCode::Enter => {
            let answer: String = app.take_approval_answer();
            let allowed: bool = parse_yes_no(&answer);
            command = Some(Command::Approve(allowed));
            app.approval_answered(allowed);
        },
        KeyCode::Esc => {
            command = Some(Command::Cancel);
        },
        KeyCode::Char(_) => {
            if is_typed_char(&key) {
                edit(app, key.code);
            }
        },
        KeyCode::Backspace | KeyCode::Left | KeyCode::Right => edit(app, key.code),
        _ => {},
    }
    ChatStep { leave: false, command }
}

/// The settings of the session on the screen.
pub open spec fn shown_settings(
    app: App,
    shown: Option<Seq<char>>,
) -> Seq<(Seq<char>, Seq<char>)> {
    table_of(
        shown_id(app.session_id@),
        app.title@,
        app.model@,
        app.agentic,
        opt_view(app.effort_level),
        shown,
        app.max_iterations,
        app.sandbox,
        app.verbose,
        app.approval,
    )
}

/// The block that a command shows on the screen, for those that only show
/// something.
pub open spec fn shown_block(
    app: App,
    submission: SubmissionView,
    shown: Option<Seq<char>>,
) -> Option<ItemView> {
    match submission {
        SubmissionView::ShowStatus => Some(ItemView::SessionStatus(shown_settings(app, shown))),
        SubmissionView::ShowVerbose => Some(
            ItemView::Notice(notice_text("Verbose"@, false, on_off_text(app.verbose))),
        ),
        SubmissionView::ShowTemperature => Some(
            ItemView::Notice(
                notice_text(
                    "Temperature"@,
                    false,
                    match shown {
                        Some(t) => t,
                        None => "none sent"@,
                    },
                ),
            ),
        ),
        SubmissionView::ShowTitle => Some(
            ItemView::Notice(notice_text("Title"@, false, app.title@)),
        ),
        SubmissionView::ShowStream => Some(
            ItemView::Notice(notice_text("Streaming"@, false, on_off_text(app.stream))),
        ),
        SubmissionView::ShowSandbox => Some(
            ItemView::Notice(notice_text("Sandbox"@, false, sandbox_state_text(app.sandbox))),
        ),
        SubmissionView::ShowApproval => Some(
            ItemView::ApprovalStatus { approval: app.approval, changed: false },
        ),
        SubmissionView::UnknownCommand(message) => Some(ItemView::Error(message)),
        _ => None,
    }
}

/// A command with the characters of its texts.
pub enum CommandView {
    Send(Seq<char>),
    Approve(bool),
    Cancel,
    SetModel(Seq<char>),
    SetAgentic(bool),
    SetEffort(Option<Seq<char>>),
    ResetEffort,
    SetVerbose(bool),
    SetStream(bool),
    SetTitle(Seq<char>),
    SetSandbox(bool),
    SetMaxIterations(Option<usize>),
    ResetMaxIterations,
    SetApproval { category: Seq<char>, enabled: bool },
    SetTemperature(Option<Temperature>),
    ResetTemperature,
}

pub open spec fn command_view(c: Command) -> CommandView {
    match c {
        Command::Send(s) => CommandView::Send(s@),
        Command::Approve(b) => CommandView::Approve(b),
        Command::Cancel => CommandView::Cancel,
        Command::SetModel(s) => CommandView::SetModel(s@),
        Command::SetAgentic(b) => CommandView::SetAgentic(b),
        Command::SetEffort(s) => CommandView::SetEffort(opt_view(s)),
        Command::ResetEffort => CommandView::ResetEffort,
        Command::SetVerbose(b) => CommandView::SetVerbose(b),
        Command::SetStream(b) => CommandView::SetStream(b),
        Command::SetTitle(s) => CommandView::SetTitle(s@),
        Command::SetSandbox(b) => CommandView::SetSandbox(b),
        Command::SetMaxIterations(n) => CommandView::SetMaxIterations(n),
        Command::ResetMaxIterations => CommandView::ResetMaxIterations,
        Command::SetApproval { category, enabled } => CommandView::SetApproval {
            category: category@,
            enabled,
        },
        Command::SetTemperature(t) => CommandView::SetTemperature(t),
        Command::ResetTemperature => CommandView::ResetTemperature,
    }
}

pub open spec fn opt_command(c: Option<Command>) -> Option<CommandView> {
    match c {
        Some(x) => Some(command_view(x)),
        None => None,
    }
}

/// What the worker is told of a submission: what changes the session, and for
/// the model without a name, to keep the one it has.
pub open spec fn told(app: App, submission: SubmissionView) -> Option<CommandView> {
    match submission {
        SubmissionView::Message(s) => Some(CommandView::Send(s)),
        SubmissionView::SetModel(s) => Some(CommandView::SetModel(s)),
        SubmissionView::ShowModel => Some(CommandView::SetModel(app.model@)),
        SubmissionView::SetAgentic(b) => Some(CommandView::SetAgentic(b)),
        SubmissionView::SetEffort(s) => Some(CommandView::SetEffort(s)),
        SubmissionView::ResetEffort => Some(CommandView::ResetEffort),
        SubmissionView::ToggleVerbose => Some(CommandView::SetVerbose(!app.verbose)),
        SubmissionView::SetVerbose(b) => Some(CommandView::SetVerbose(b)),
        SubmissionView::SetStream(b) => Some(CommandView::SetStream(b)),
        SubmissionView::SetTitle(s) => Some(CommandView::SetTitle(s)),
        SubmissionView::SetMaxIterations(n) => Some(CommandView::SetMaxIterations(n)),
        SubmissionView::ResetMaxIterations => Some(CommandView::ResetMaxIterations),
        SubmissionView::SetTemperature(t) => Some(CommandView::SetTemperature(t)),
        SubmissionView::ResetTemperature => Some(CommandView::ResetTemperature),
        SubmissionView::SetApproval { category, enabled } => Some(
            CommandView::SetApproval { category, enabled },
        ),
        SubmissionView::SetSandbox(b) => Some(CommandView::SetSandbox(b)),
        _ => None,
    }
}

/// Every line that is submitted either goes to the worker or shows something,
/// and never both.
pub proof fn a_submission_is_told_or_shown(
    app: App,
    submission: SubmissionView,
    shown: Option<Seq<char>>,
)
    ensures
        told(app, submission) is Some <==> shown_block(app, submission, shown) is None,
{
}

/// Shows what a command shows, or says what the worker is told.
fn submit(app: &mut App, submission: Submission, shown: &Option<String>) -> (r: Option<Command>)
    ensures
        opt_command(r) == told(*old(app), submission@),
        match shown_block(*old(app), submission@, opt_view(*shown)) {
            Some(block) => final(app).blocks() == old(app).blocks().push(block),
            None => *final(app) == *old(app),
        },
        *final(app) == (App { transcript: final(app).transcript, ..*old(app) }),
{
    match command_for(&submission) {
        Some(command) => {
            return Some(command);
        },
        None => {},
    }
    let item: TranscriptItem = match submission {
        Submission::ShowModel => {
            return Some(Command::SetModel(app.model.clone()));
        },
        Submission::ToggleVerbose => {
            return Some(Command::SetVerbose(!app.verbose));
        },
        Submission::ShowStatus => TranscriptItem::SessionStatus(settings_of(app, shown)),
        Submission::ShowVerbose => TranscriptItem::Notice(
            notice("Verbose", false, on_or_off(app.verbose)),
        ),
        Submission::ShowTemperature => TranscriptItem::Notice(
            match shown {
                Some(t) => notice("Temperature", false, t),
                None => notice("Temperature", false, "none sent"),
            },
        ),
        Submission::ShowTitle => TranscriptItem::Notice(notice("Title", false, &app.title)),
        Submission::ShowStream => TranscriptItem::Notice(
            notice("Streaming", false, on_or_off(app.stream)),
        ),
        Submission::ShowSandbox => TranscriptItem::Notice(sandbox_notice(app.sandbox, false)),
        Submission::ShowApproval => TranscriptItem::ApprovalStatus {
            approval: app.approval,
            changed: false,
        },
        Submission::UnknownCommand(message) => TranscriptItem::Error(message),
        _ => {
            return None;
        },
    };
    app.push_item(item);
    None
}

fn on_or_off(value: bool) -> (r: &'static str)
    ensures
        r@ == on_off_text(value),
{
    if value {
        "on"
    } else {
        "off"
    }
}

fn settings_of(app: &App, shown: &Option<String>) -> (r: Vec<(String, String)>)
    ensures
        crate::ui::pair_views(r@) == shown_settings(*app, opt_view(*shown)),
{
    let settings: SessionSettings = SessionSettings {
        id: app.short_id(),
        title: &app.title,
        model: &app.model,
        agentic: app.agentic,
        effort_level: match &app.effort_level {
            Some(level) => Some(level.as_str()),
            None => None,
        },
        temperature: match shown {
            Some(t) => Some(t.as_str()),
            None => None,
        },
        max_iterations: app.max_iterations,
        verbose: app.verbose,
        sandbox: app.sandbox,
        approval: &app.approval,
    };
    assert(settings_table(settings) == shown_settings(*app, opt_view(*shown)));
    session_settings_rows(&settings)
}

/// What the enter key submits: what is in the box, unless that is blank.
pub open spec fn submits(before: App, after: App, numbers: Numbers, step: ChatStep) -> bool {
    let text = trim(before.input@);
    if text.len() == 0 {
        step == (ChatStep { leave: false, command: None }) && after == before
    } else {
        let submission = reading(text, numbers.typed);
        &&& !step.leave
        &&& opt_command(step.command) == told(before, submission)
        &&& after.wf()
        &&& after.input@.len() == 0
        &&& after.blocks() == match shown_block(before, submission, opt_view(numbers.shown)) {
            Some(block) => before.blocks().push(block),
            None => before.blocks(),
        }
        &&& after == (App {
            transcript: after.transcript,
            input: after.input,
            cursor: 0,
            ..before
        })
    }
}

/// What a key does while the box has the focus.
pub open spec fn handles_input(
    before: App,
    after: App,
    key: Key,
    numbers: Numbers,
    step: ChatStep,
) -> bool {
    let nothing = ChatStep { leave: false, command: None };
    if key.control && key.code == KeyCode::Char('b') {
        step == (ChatStep { leave: true, command: None }) && after == before
    } else {
        match key.code {
            KeyCode::Enter => if key.alt || key.shift {
                step == nothing && edits(before, after, KeyCode::Char('\n'))
            } else {
                submits(before, after, numbers, step)
            },
            KeyCode::Esc => {
                &&& step == (ChatStep {
                    leave: false,
                    command: if before.busy {
                        Some(Command::Cancel)
                    } else {
                        None
                    },
                })
                &&& after == before
            },
            KeyCode::Up => {
                &&& step == nothing
                &&& after.wf()
                &&& match before.older() {
                    Some(i) => after.input == before.input_history@[i] && after.caret()
                        == after.input@.len() && after == (App {
                        input: after.input,
                        cursor: after.cursor,
                        recalled: Some(i as usize),
                        ..before
                    }),
                    None => after == before,
                }
            },
            KeyCode::Down => {
                &&& step == nothing
                &&& after.wf()
                &&& match before.recalled {
                    Some(i) => if i + 1 < before.input_history@.len() {
                        after.input == before.input_history@[i + 1] && after.caret()
                            == after.input@.len() && after == (App {
                            input: after.input,
                            cursor: after.cursor,
                            recalled: Some((i + 1) as usize),
                            ..before
                        })
                    } else {
                        after.input@.len() == 0 && after == (App {
                            input: after.input,
                            cursor: 0,
                            recalled: None,
                            ..before
                        })
                    },
                    None => after == before,
                }
            },
            KeyCode::PageUp => {
                &&& step == nothing
                &&& after == (App {
                    scroll_back: scrolled_up(before.scroll_back, PAGE_STEP) as u16,
                    ..before
                })
            },
            KeyCode::PageDown => {
                &&& step == nothing
                &&& after == (App {
                    scroll_back: scrolled_down(before.scroll_back, PAGE_STEP) as u16,
                    ..before
                })
            },
            KeyCode::End => step == nothing && after == (App { scroll_back: 0, ..before }),
            _ => {
                &&& step == nothing
                &&& if is_editing(key) {
                    edits(before, after, key.code)
                } else {
                    after == before
                }
            },
        }
    }
}

/// What a key does on the conversation screen. While a tool call waits for an
/// answer the keys give it, and nothing leaves the screen.
pub fn handle_chat_key(app: &mut App, key: Key, numbers: &Numbers) -> (r: ChatStep)
    requires
        has_room(*old(app)),
    ensures
        final(app).wf(),
        old(app).focus == Focus::Approval ==> answers_question(*old(app), *final(app), key, r),
        old(app).focus == Focus::Input ==> handles_input(
            *old(app),
            *final(app),
            key,
            *numbers,
            r,
        ),
{
    if app.focus == Focus::Approval {
        return answer_question(app, key);
    }
    if key.control && key.code == KeyCode::Char('b') {
        return ChatStep { leave: true, command: None };
    }
    let mut command: Option<Command> = None;
    match key.code {
        KeyCode::Enter => {
            if key.alt || key.shift {
                edit(app, KeyCode::Char('\n'));
            } else {
                match app.take_input() {
                    Some(text) => {
                        let submission: Submission = classify(&text, numbers.typed);
                        command = submit(app, submission, &numbers.shown);
                    },
                    None => {},
                }
            }
        },
        KeyCode::Esc => {
            if app.busy {
                command = Some(Command::Cancel);
            }
        },
        KeyCode::Backspace | KeyCode::Left | KeyCode::Right => edit(app, key.code),
        KeyCode::Up => app.history_up(),
        KeyCode::Down => app.history_down(),
        KeyCode::PageUp => {
            app.scroll_back = app.scroll_back.saturating_add(PAGE_STEP);
        },
        KeyCode::PageDown => {
            app.scroll_back = app.scroll_back.saturating_sub(PAGE_STEP);
        },
        KeyCode::End => {
            app.scroll_back = 0;
        },
        KeyCode::Char(_) => {
            if is_typed_char(&key) {
                edit(app, key.code);
            }
        },
        KeyCode::Other => {},
    }
    ChatStep { leave: false, command }
}

// ---------------------------------------------------------------------------
// The list of sessions
// ---------------------------------------------------------------------------

/// What a key asks for beyond the screen itself.
#[derive(Debug, Clone, PartialEq, Eq)]
pub enum KeyStep {
    /// Nothing.
    Stay,
    Quit,
    /// The session gets a new title, in the store and then in the list.
    Rename { id: String, title: String },
    /// The session is deleted from the store and then from the list.
    Delete(SessionRow),
    /// The session is opened, in its own directory.
    Open(SessionRow),
    /// The session is opened in the current directory.
    OpenHere(SessionRow),
    /// The screen that asks for a title is shown.
    AskTitle,
    /// A session with this title is started.
    Start { title: String },
    /// The list is loaded and shown.
    ShowList,
    /// The conversation is shut down; then the list is loaded and shown.
    LeaveChat,
    /// The worker is told something.
    Send(Command),
}

/// Whether a key says yes to a question about a session.
pub open spec fn confirms(code: KeyCode) -> bool {
    code == KeyCode::Char('y') || code == KeyCode::Char('Y')
}

fn is_confirmation(code: KeyCode) -> (r: bool)
    ensures
        r == confirms(code),
{
    match code {
        KeyCode::Char('y') | KeyCode::Char('Y') => true,
        _ => false,
    }
}

/// What a key does while a session is renamed.
pub open spec fn renames(before: Picker, after: Picker, key: Key, step: KeyStep) -> bool {
    let (row, title) = before.renaming.unwrap();
    match key.code {
        KeyCode::Esc => step == KeyStep::Stay && after == (Picker { renaming: None, ..before }),
        KeyCode::Enter => if trim(title@).len() > 0 {
            &&& step matches KeyStep::Rename { id, title: t }
            &&& id == row.id
            &&& t@ == trim(title@)
            &&& after == (Picker { renaming: None, ..before })
        } else {
            step == KeyStep::Stay && after == before
        },
        KeyCode::Backspace => {
            &&& step == KeyStep::Stay
            &&& after == (Picker { renaming: after.renaming, ..before })
            &&& after.renaming matches Some((r, t))
            &&& r == row
            &&& t@ == if title@.len() > 0 {
                title@.drop_last()
            } else {
                title@
            }
        },
        KeyCode::Char(c) => if key.control {
            step == KeyStep::Stay && after == before
        } else {
            &&& step == KeyStep::Stay
            &&& after == (Picker { renaming: after.renaming, ..before })
            &&& after.renaming matches Some((r, t))
            &&& r == row
            &&& t@ == title@.push(c)
        },
        _ => step == KeyStep::Stay && after == before,
    }
}

fn rename_key(picker: &mut Picker, key: Key) -> (r: KeyStep)
    requires
        old(picker).renaming is Some,
    ensures
        renames(*old(picker), *final(picker), key, r),
{
    match key.code {
        KeyCode::Esc => picker.cancel_rename(),
        KeyCode::Enter => {
            match picker.confirm_rename() {
                Some((id, title)) => {
                    return KeyStep::Rename { id, title };
                },
                None => {},
            }
        },
        KeyCode::Backspace => picker.rename_backspace(),
        KeyCode::Char(c) => {
            if is_typed_char(&key) {
                picker.rename_insert_char(c);
            }
        },
        _ => {},
    }
    KeyStep::Stay
}

/// What choosing an entry of the list asks for.
pub open spec fn chosen(items: Seq<LaunchItem>, selected: int) -> KeyStep {
    if 0 <= selected < items.len() {
        match items[selected] {
            LaunchItem::NewSession => KeyStep::AskTitle,
            LaunchItem::Resume(row) => KeyStep::Open(row),
            LaunchItem::Header(_) => KeyStep::Stay,
        }
    } else {
        KeyStep::Stay
    }
}

/// What a key does in the list while it asks for nothing.
pub open spec fn browses(before: Picker, after: Picker, key: Key, step: KeyStep) -> bool {
    let at = before.selected as int;
    match key.code {
        KeyCode::Char('q') => step == KeyStep::Quit && after == before,
        KeyCode::Up | KeyCode::Char('k') => {
            &&& step == KeyStep::Stay
            &&& after == (Picker { selected: after.selected, ..before })
            &&& after.selected == match crate::tui::picker::above(before.items@, at) {
                Some(j) => j,
                None => at,
            }
        },
        KeyCode::Down | KeyCode::Char('j') => {
            &&& step == KeyStep::Stay
            &&& after == (Picker { selected: after.selected, ..before })
            &&& after.selected == match crate::tui::picker::below(before.items@, at) {
                Some(j) => j,
                None => at,
            }
        },
        KeyCode::Char('r') => {
            &&& step == KeyStep::Stay
            &&& after == match before.current() {
                Some(row) => Picker { renaming: Some((row, row.title)), ..before },
                None => before,
            }
        },
        KeyCode::Char('d') => {
            &&& step == KeyStep::Stay
            &&& after == match before.current() {
                Some(row) => Picker { confirming_delete: Some(row), ..before },
                None => before,
            }
        },
        KeyCode::Enter => step == chosen(before.items@, at) && after == before,
        _ => step == KeyStep::Stay && after == before,
    }
}

fn browse_key(picker: &mut Picker, key: Key) -> (r: KeyStep)
    ensures
        browses(*old(picker), *final(picker), key, r),
{
    match key.code {
        KeyCode::Char('q') => {
            return KeyStep::Quit;
        },
        KeyCode::Up | KeyCode::Char('k') => picker.move_up(),
        KeyCode::Down | KeyCode::Char('j') => picker.move_down(),
        KeyCode::Char('r') => picker.begin_rename(),
        KeyCode::Char('d') => picker.begin_delete(),
        KeyCode::Enter => {
            match picker.activate() {
                Some(Activation::NewSession) => {
                    return KeyStep::AskTitle;
                },
                Some(Activation::Resume(row)) => {
                    return KeyStep::Open(row);
                },
                _ => {},
            }
        },
        _ => {},
    }
    KeyStep::Stay
}

/// The session whose directory is gone.
pub open spec fn gone(picker: Picker) -> SessionRow {
    let (row, _) = picker.confirming_repoint.unwrap();
    row
}

/// What a key does in the list: a title that is typed comes first, then a
/// question that waits, and every key but an explicit yes says no to it.
pub open spec fn handles_list(before: Picker, after: Picker, key: Key, step: KeyStep) -> bool {
    if before.renaming is Some {
        renames(before, after, key, step)
    } else if before.confirming_repoint is Some {
        &&& after == (Picker { confirming_repoint: None, ..before })
        &&& step == if confirms(key.code) {
            KeyStep::OpenHere(gone(before))
        } else {
            KeyStep::Stay
        }
    } else if before.confirming_delete is Some {
        &&& after == (Picker { confirming_delete: None, ..before })
        &&& step == if confirms(key.code) {
            KeyStep::Delete(before.confirming_delete->0)
        } else {
            KeyStep::Stay
        }
    } else {
        browses(before, after, key, step)
    }
}

/// What a key does in the list of sessions.
pub fn handle_picker_key(picker: &mut Picker, key: Key) -> (r: KeyStep)
    ensures
        handles_list(*old(picker), *final(picker), key, r),
{
    if picker.renaming.is_some() {
        return rename_key(picker, key);
    }
    if picker.confirming_repoint.is_some() {
        return match picker.resolve_repoint(is_confirmation(key.code)) {
            Some(Activation::Repoint(row)) => KeyStep::OpenHere(row),
            _ => KeyStep::Stay,
        };
    }
    if picker.confirming_delete.is_some() {
        return match picker.resolve_delete(is_confirmation(key.code)) {
            Some(Activation::Delete(row)) => KeyStep::Delete(row),
            _ => KeyStep::Stay,
        };
    }
    browse_key(picker, key)
}

/// Nothing is deleted, and no session opened elsewhere than where it was
/// started, but on an explicit yes to the question about that session.
pub proof fn only_a_yes_deletes_or_moves(before: Picker, after: Picker, key: Key, step: KeyStep)
    requires
        handles_list(before, after, key, step),
    ensures
        step matches KeyStep::Delete(row) ==> before.confirming_delete == Some(row) && confirms(
            key.code,
        ),
        step matches KeyStep::OpenHere(row) ==> before.confirming_repoint is Some
            && gone(before) == row && confirms(key.code),
{
}

/// A session's title is never replaced by a blank one.
pub proof fn a_blank_title_is_never_given(before: Picker, after: Picker, key: Key, step: KeyStep)
    requires
        handles_list(before, after, key, step),
    ensures
        step matches KeyStep::Rename { id, title } ==> trim(title@).len() > 0,
{
    if step is Rename {
        let (_, typed) = before.renaming.unwrap();
        crate::text::trimming_twice_is_trimming_once(typed@);
    }
}

/// Why a session could not be opened.
#[derive(Debug, Clone, PartialEq, Eq)]
pub enum OpenFailure {
    /// The directory it was started in is gone.
    MissingDir(String),
    Other(String),
}

/// Takes in that a session could not be opened: where its directory is gone,
/// the list asks whether to open it here.
pub fn open_failed(picker: &mut Picker, row: SessionRow, failure: OpenFailure)
    ensures
        *final(picker) == match failure {
            OpenFailure::MissingDir(dir) => Picker {
                confirming_repoint: Some((row, dir)),
                ..*old(picker)
            },
            OpenFailure::Other(message) => Picker { notice: Some(message), ..*old(picker) },
        },
{
    match failure {
        OpenFailure::MissingDir(dir) => picker.begin_repoint(row, dir),
        OpenFailure::Other(message) => {
            picker.notice = Some(message);
        },
    }
}

// ---------------------------------------------------------------------------
// The title of a new session
// ---------------------------------------------------------------------------

/// What a key does while the title of a new session is typed.
pub open spec fn names(before: Seq<char>, after: Seq<char>, key: Key, step: KeyStep) -> bool {
    match key.code {
        KeyCode::Esc => step == KeyStep::ShowList && after == before,
        KeyCode::Enter => if trim(before).len() > 0 {
            &&& step matches KeyStep::Start { title }
            &&& title@ == trim(before)
            &&& after == before
        } else {
            step == KeyStep::Stay && after == before
        },
        KeyCode::Backspace => {
            &&& step == KeyStep::Stay
            &&& after == if before.len() > 0 {
                before.drop_last()
            } else {
                before
            }
        },
        KeyCode::Char(c) => {
            &&& step == KeyStep::Stay
            &&& after == if key.control {
                before
            } else {
                before.push(c)
            }
        },
        _ => step == KeyStep::Stay && after == before,
    }
}

/// What a key does while the title of a new session is typed. No session is
/// started without a title.
pub fn handle_naming_key(input: &mut String, key: Key) -> (r: KeyStep)
    ensures
        names(old(input)@, final(input)@, key, r),
{
    match key.code {
        KeyCode::Esc => {
            return KeyStep::ShowList;
        },
        KeyCode::Enter => {
            let chars: Vec<char> = chars_of(input);
            let title: &[char] = trim_chars(&chars);
            if title.len() > 0 {
                return KeyStep::Start { title: string_of(title) };
            }
        },
        KeyCode::Backspace => {
            let _ = input.pop();
        },
        KeyCode::Char(c) => {
            if is_typed_char(&key) {
                input.push(c);
            }
        },
        _ => {},
    }
    KeyStep::Stay
}

// ---------------------------------------------------------------------------
// The screen that is shown
// ---------------------------------------------------------------------------

/// The screen that is shown.
#[derive(Debug)]
pub enum Screen {
    Launch(Picker),
    NameSession { input: String },
    Chat(App),
}

/// The conversation's box has room for more.
pub open spec fn screen_has_room(screen: Screen) -> bool {
    screen matches Screen::Chat(app) ==> has_room(app)
}

/// What a key asks for on the conversation screen.
pub open spec fn chat_request(step: ChatStep) -> KeyStep {
    if step.leave {
        KeyStep::LeaveChat
    } else {
        match step.command {
            Some(command) => KeyStep::Send(command),
            None => KeyStep::Stay,
        }
    }
}

/// Whether a key ends the program wherever it is typed.
pub open spec fn interrupts(key: Key) -> bool {
    key.control && key.code == KeyCode::Char('c')
}

/// What a key does on a screen.
pub open spec fn handles_key(
    before: Screen,
    after: Screen,
    key: Key,
    numbers: Numbers,
    step: KeyStep,
) -> bool {
    if interrupts(key) {
        step == KeyStep::Quit && after == before
    } else {
        match before {
            Screen::Launch(p) => if step == KeyStep::AskTitle {
                &&& handles_list(p, p, key, step)
                &&& after matches Screen::NameSession { input }
                &&& input@.len() == 0
            } else {
                &&& after matches Screen::Launch(q)
                &&& handles_list(p, q, key, step)
            },
            Screen::NameSession { input } => {
                &&& after matches Screen::NameSession { input: now }
                &&& names(input@, now@, key, step)
            },
            Screen::Chat(app) => {
                &&& after matches Screen::Chat(now)
                &&& now.wf()
                &&& exists|s: ChatStep| #[trigger]
                    chat_request(s) == step && if app.focus == Focus::Approval {
                        answers_question(app, now, key, s)
                    } else {
                        handles_input(app, now, key, numbers, s)
                    }
            },
        }
    }
}

/// What a key does: the screen after it, and what else it asks for.
pub fn handle_key(screen: Screen, key: Key, numbers: &Numbers) -> (r: (Screen, KeyStep))
    requires
        screen_has_room(screen),
    ensures
        handles_key(screen, r.0, key, *numbers, r.1),
{
    if key.control && key.code == KeyCode::Char('c') {
        return (screen, KeyStep::Quit);
    }
    match screen {
        Screen::Launch(picker) => {
            let mut picker: Picker = picker;
            let step: KeyStep = handle_picker_key(&mut picker, key);
            let ask: bool = match step {
                KeyStep::AskTitle => true,
                _ => false,
            };
            if ask {
                (Screen::NameSession { input: String::new() }, step)
            } else {
                (Screen::Launch(picker), step)
            }
        },
        Screen::NameSession { input } => {
            let mut input: String = input;
            let step: KeyStep = handle_naming_key(&mut input, key);
            (Screen::NameSession { input }, step)
        },
        Screen::Chat(app) => {
            let mut app: App = app;
            let step: ChatStep = handle_chat_key(&mut app, key, numbers);
            let ghost taken = step;
            let request: KeyStep = if step.leave {
                KeyStep::LeaveChat
            } else {
                match step.command {
                    Some(command) => KeyStep::Send(command),
                    None => KeyStep::Stay,
                }
            };
            assert(chat_request(taken) == request);
            (Screen::Chat(app), request)
        },
    }
}

/// Control and c end the program on every screen, and change nothing on it.
pub proof fn control_c_quits_everywhere(
    before: Screen,
    after: Screen,
    key: Key,
    numbers: Numbers,
    step: KeyStep,
)
    requires
        handles_key(before, after, key, numbers, step),
        interrupts(key),
    ensures
        step == KeyStep::Quit,
        after == before,
{
}

/// While a question about a tool call waits, no key but that leaves the
/// conversation.
pub proof fn an_open_question_keeps_the_screen(
    app: App,
    after: Screen,
    key: Key,
    numbers: Numbers,
    step: KeyStep,
)
    requires
        handles_key(Screen::Chat(app), after, key, numbers, step),
        app.focus == Focus::Approval,
        !interrupts(key),
    ensures
        after is Chat,
        !(step is LeaveChat),
        !(step is Quit),
{
    let now = after->Chat_0;
    let s = choose|s: ChatStep| #[trigger]
        chat_request(s) == step && answers_question(app, now, key, s);
    assert(!s.leave);
}

/// A key with control held never types its character, on any screen.
pub proof fn a_chord_types_nothing(before: Screen, after: Screen, key: Key, numbers: Numbers, step: KeyStep)
    requires
        handles_key(before, after, key, numbers, step),
        key.control,
        key.code is Char,
    ensures
        match before {
            Screen::Chat(app) => after matches Screen::Chat(now) && now.input@ == app.input@,
            Screen::NameSession { input } => after matches Screen::NameSession { input: now }
                && now@ == input@,
            Screen::Launch(_) => after is Launch,
        },
{
    match before {
        Screen::Chat(app) => {
            if !interrupts(key) {
                let now = after->Chat_0;
                let s = choose|s: ChatStep| #[trigger]
                    chat_request(s) == step && if app.focus == Focus::Approval {
                        answers_question(app, now, key, s)
                    } else {
                        handles_input(app, now, key, numbers, s)
                    };
                assert(chat_request(s) == step);
            }
        },
        _ => {},
    }
}

/// What the terminal and the worker report, and the clock.
#[derive(Debug, Clone, PartialEq, Eq)]
pub enum Wake {
    Key(Key),
    Paste(String),
    Resize,
    Mouse(MouseKind),
    /// Anything else from the terminal.
    Ignored,
    Conversation(Event),
    /// The worker has nothing more to say.
    Closed,
    Tick,
}

/// What one turn of the loop comes to.
#[derive(Debug)]
pub struct LoopStep {
    pub screen: Screen,
    pub tick: usize,
    /// Whether the screen has to be drawn again.
    pub dirty: bool,
    pub step: KeyStep,
}

/// Whether there is something to animate: a turn that runs, or a session in
/// the list that works.
pub open spec fn animates(screen: Screen) -> bool {
    match screen {
        Screen::Chat(app) => app.busy,
        Screen::Launch(p) => exists|i: int|
            0 <= i < p.items@.len() && is_working(#[trigger] p.items@[i]),
        Screen::NameSession { .. } => false,
    }
}

/// The next tick, counting round.
pub open spec fn next_tick(tick: usize) -> int {
    if tick == usize::MAX {
        0
    } else {
        tick + 1
    }
}

/// What one turn of the loop does to the screen.
pub open spec fn wakes(before: Screen, wake: Wake, tick: usize, numbers: Numbers, r: LoopStep) -> bool {
    match wake {
        Wake::Key(key) => {
            &&& r.dirty
            &&& r.tick == tick
            &&& handles_key(before, r.screen, key, numbers, r.step)
        },
        Wake::Paste(text) => {
            &&& r.dirty
            &&& r.tick == tick
            &&& r.step == KeyStep::Stay
            &&& match before {
                Screen::Chat(app) => {
                    &&& r.screen matches Screen::Chat(now)
                    &&& edited(
                        app,
                        now,
                        app.input@.take(app.caret()) + text@ + app.input@.skip(app.caret()),
                        app.caret() + text@.len(),
                    )
                },
                _ => r.screen == before,
            }
        },
        Wake::Resize => r == (LoopStep {
            screen: before,
            tick,
            dirty: true,
            step: KeyStep::Stay,
        }),
        Wake::Mouse(kind) => {
            &&& r.tick == tick
            &&& r.step == KeyStep::Stay
            &&& r.dirty == (before is Chat)
            &&& match before {
                Screen::Chat(app) => r.screen == Screen::Chat(
                    App {
                        scroll_back: match kind {
                            MouseKind::ScrollUp => scrolled_up(
                                app.scroll_back,
                                MOUSE_SCROLL_STEP,
                            ) as u16,
                            MouseKind::ScrollDown => scrolled_down(
                                app.scroll_back,
                                MOUSE_SCROLL_STEP,
                            ) as u16,
                            MouseKind::Other => app.scroll_back,
                        },
                        ..app
                    },
                ),
                _ => r.screen == before,
            }
        },
        Wake::Conversation(event) => {
            &&& r.dirty
            &&& r.tick == tick
            &&& r.step == KeyStep::Stay
            &&& match before {
                Screen::Chat(app) => {
                    &&& r.screen matches Screen::Chat(now)
                    &&& crate::tui::app::reflects(app, now, event)
                },
                _ => r.screen == before,
            }
        },
        Wake::Ignored | Wake::Closed => r == (LoopStep {
            screen: before,
            tick,
            dirty: false,
            step: KeyStep::Stay,
        }),
        Wake::Tick => r == (LoopStep {
            screen: before,
            tick: if animates(before) {
                next_tick(tick) as usize
            } else {
                tick
            },
            dirty: animates(before),
            step: KeyStep::Stay,
        }),
    }
}

/// One turn of the loop: what is shown after something happened, and whether
/// it has to be drawn again.
pub fn on_wake(screen: Screen, wake: Wake, tick: usize, numbers: &Numbers) -> (r: LoopStep)
    requires
        screen_has_room(screen),
        wake matches Wake::Paste(text) ==> (screen matches Screen::Chat(app) ==> byte_width(
            app.input@,
        ) + byte_width(text@) + 4 <= usize::MAX),
    ensures
        wakes(screen, wake, tick, *numbers, r),
{
    match wake {
        Wake::Key(key) => {
            let (screen, step): (Screen, KeyStep) = handle_key(screen, key, numbers);
            LoopStep { screen, tick, dirty: true, step }
        },
        Wake::Paste(text) => match screen {
            Screen::Chat(app) => {
                let mut app: App = app;
                app.paste(&text);
                LoopStep { screen: Screen::Chat(app), tick, dirty: true, step: KeyStep::Stay }
            },
            other => LoopStep { screen: other, tick, dirty: true, step: KeyStep::Stay },
        },
        Wake::Resize => LoopStep { screen, tick, dirty: true, step: KeyStep::Stay },
        Wake::Mouse(kind) => match screen {
            Screen::Chat(app) => {
                let mut app: App = app;
                handle_mouse_scroll(&mut app, kind);
                LoopStep { screen: Screen::Chat(app), tick, dirty: true, step: KeyStep::Stay }
            },
            other => LoopStep { screen: other, tick, dirty: false, step: KeyStep::Stay },
        },
        Wake::Conversation(event) => match screen {
            Screen::Chat(app) => {
                let mut app: App = app;
                app.apply(event);
                LoopStep { screen: Screen::Chat(app), tick, dirty: true, step: KeyStep::Stay }
            },
            other => LoopStep { screen: other, tick, dirty: true, step: KeyStep::Stay },
        },
        Wake::Ignored | Wake::Closed => LoopStep {
            screen,
            tick,
            dirty: false,
            step: KeyStep::Stay,
        },
        Wake::Tick => {
            let moving: bool = match &screen {
                Screen::Chat(app) => app.busy,
                Screen::Launch(picker) => picker.has_working_session(),
                Screen::NameSession { .. } => false,
            };
            let tick: usize = if moving {
                tick.wrapping_add(1)
            } else {
                tick
            };
            LoopStep { screen, tick, dirty: moving, step: KeyStep::Stay }
        },
    }
}

// ---------------------------------------------------------------------------
// Laws of the keys
// ---------------------------------------------------------------------------

/// A typed character stands where the cursor was, which goes behind it; what
/// was there before stays in its order, and backspace takes away what stands in
/// front of the cursor.
pub proof fn a_key_edits_at_the_cursor(before: App, after: App, c: char)
    requires
        before.wf(),
    ensures
        edits(before, after, KeyCode::Char(c)) ==> {
            &&& after.input@.len() == before.input@.len() + 1
            &&& after.input@[before.caret()] == c
            &&& after.caret() == before.caret() + 1
            &&& after.input@.take(before.caret()) == before.input@.take(before.caret())
            &&& after.input@.skip(before.caret() + 1) == before.input@.skip(before.caret())
            &&& after.blocks() == before.blocks()
        },
        edits(before, after, KeyCode::Backspace) && before.caret() > 0 ==> {
            &&& after.input@.len() == before.input@.len() - 1
            &&& after.caret() == before.caret() - 1
            &&& after.input@.take(after.caret()) == before.input@.take(after.caret())
            &&& after.input@.skip(after.caret()) == before.input@.skip(before.caret())
        },
        edits(before, after, KeyCode::Left) ==> after.input@ == before.input@ && (before.caret()
            > 0 ==> after.caret() == before.caret() - 1),
        edits(before, after, KeyCode::Right) ==> after.input@ == before.input@ && (before.caret()
            < before.input@.len() ==> after.caret() == before.caret() + 1),
{
    let at = before.caret();
    crate::offsets::lemma_caret_in_bounds(before.input@, before.cursor as nat);
    let s = before.input@;
    if edits(before, after, KeyCode::Char(c)) {
        assert(s.insert(at, c).take(at) =~= s.take(at));
        assert(s.insert(at, c).skip(at + 1) =~= s.skip(at));
    }
    if edits(before, after, KeyCode::Backspace) && at > 0 {
        assert(s.remove(at - 1).take(at - 1) =~= s.take(at - 1));
        assert(s.remove(at - 1).skip(at - 1) =~= s.skip(at));
    }
}

/// What is submitted is told to the worker as it was read: a message as it is,
/// a setting with its value, and a toggle as the opposite of what is.
pub proof fn what_is_submitted_is_told_as_it_was_read(
    app: App,
    text: Seq<char>,
    enabled: bool,
    cap: Option<usize>,
    t: Option<Temperature>,
    level: Option<Seq<char>>,
)
    ensures
        told(app, SubmissionView::Message(text)) == Some(CommandView::Send(text)),
        told(app, SubmissionView::SetModel(text)) == Some(CommandView::SetModel(text)),
        told(app, SubmissionView::SetAgentic(enabled)) == Some(CommandView::SetAgentic(enabled)),
        told(app, SubmissionView::SetEffort(level)) == Some(CommandView::SetEffort(level)),
        told(app, SubmissionView::ToggleVerbose) == Some(CommandView::SetVerbose(!app.verbose)),
        told(app, SubmissionView::SetVerbose(enabled)) == Some(CommandView::SetVerbose(enabled)),
        told(app, SubmissionView::SetStream(enabled)) == Some(CommandView::SetStream(enabled)),
        told(app, SubmissionView::SetTitle(text)) == Some(CommandView::SetTitle(text)),
        told(app, SubmissionView::SetMaxIterations(cap)) == Some(
            CommandView::SetMaxIterations(cap),
        ),
        told(app, SubmissionView::SetTemperature(t)) == Some(CommandView::SetTemperature(t)),
        told(app, SubmissionView::SetSandbox(enabled)) == Some(CommandView::SetSandbox(enabled)),
        told(app, SubmissionView::SetApproval { category: text, enabled }) == Some(
            CommandView::SetApproval { category: text, enabled },
        ),
        told(app, SubmissionView::ResetEffort) == Some(CommandView::ResetEffort),
        told(app, SubmissionView::ResetMaxIterations) == Some(CommandView::ResetMaxIterations),
        told(app, SubmissionView::ResetTemperature) == Some(CommandView::ResetTemperature),
        told(app, SubmissionView::UnknownCommand(text)) is None,
        told(app, SubmissionView::ShowStatus) is None,
{
}

/// A command that is not known is shown as an error with what is wrong, and a
/// setting that is asked for as it is.
pub proof fn what_is_asked_for_is_shown_as_it_is(
    app: App,
    message: Seq<char>,
    shown: Option<Seq<char>>,
)
    ensures
        shown_block(app, SubmissionView::UnknownCommand(message), shown) == Some(
            ItemView::Error(message),
        ),
        shown_block(app, SubmissionView::ShowTitle, shown) == Some(
            ItemView::Notice("Title"@ + " is "@ + app.title@),
        ),
        shown_block(app, SubmissionView::ShowVerbose, shown) == Some(
            ItemView::Notice("Verbose"@ + " is "@ + on_off_text(app.verbose)),
        ),
        shown_block(app, SubmissionView::ShowStream, shown) == Some(
            ItemView::Notice("Streaming"@ + " is "@ + on_off_text(app.stream)),
        ),
        shown_block(app, SubmissionView::ShowApproval, shown) == Some(
            ItemView::ApprovalStatus { approval: app.approval, changed: false },
        ),
        shown_block(app, SubmissionView::Message(message), shown) is None,
        shown matches Some(t) ==> shown_block(app, SubmissionView::ShowTemperature, shown) == Some(
            ItemView::Notice("Temperature"@ + " is "@ + t),
        ),
{
    crate::ui::a_notice_says_what_and_to_what("Title"@, app.title@);
    crate::ui::a_notice_says_what_and_to_what("Verbose"@, on_off_text(app.verbose));
    crate::ui::a_notice_says_what_and_to_what("Streaming"@, on_off_text(app.stream));
    match shown {
        Some(t) => crate::ui::a_notice_says_what_and_to_what("Temperature"@, t),
        None => {},
    }
}

/// Enter sends what was typed, trimmed, and empties the box; on a blank line it
/// does nothing. With a key held it breaks the line.
pub proof fn enter_sends_what_was_typed(
    before: App,
    after: App,
    key: Key,
    numbers: Numbers,
    step: ChatStep,
)
    requires
        handles_input(before, after, key, numbers, step),
        key.code == KeyCode::Enter,
        before.wf(),
    ensures
        !key.alt && !key.shift && trim(before.input@).len() == 0 ==> after == before && !step.leave
            && step.command is None,
        !key.alt && !key.shift && trim(before.input@).len() > 0 ==> after.input@.len() == 0
            && !step.leave,
        !key.alt && !key.shift && trim(before.input@).len() > 0 && trim(before.input@)[0] != '/'
            ==> (step.command matches Some(Command::Send(text)) && text@ == trim(before.input@))
            && after.blocks() == before.blocks(),
        key.alt || key.shift ==> step.command is None && after.input@.len() == before.input@.len()
            + 1,
{
    let text = trim(before.input@);
    crate::offsets::lemma_caret_in_bounds(before.input@, before.cursor as nat);
    if !key.alt && !key.shift && text.len() > 0 && text[0] != '/' {
        crate::text::trimming_twice_is_trimming_once(before.input@);
        crate::ui::a_line_without_a_slash_is_a_message(text, numbers.typed);
    }
}

/// While a question is open enter answers it with what was typed, and only a
/// yes allows the call; escape stops the turn.
pub proof fn only_a_yes_allows_the_call(before: App, after: App, key: Key, step: ChatStep)
    requires
        answers_question(before, after, key, step),
    ensures
        key.code == KeyCode::Enter ==> {
            &&& step.command == Some(
                Command::Approve(
                    lowercase(trim(before.input@)) == "y"@ || lowercase(trim(before.input@))
                        == "yes"@,
                ),
            )
            &&& after.focus == Focus::Input
            &&& after.pending_approval is None
            &&& after.input@.len() == 0
        },
        key.code == KeyCode::Esc ==> step.command == Some(Command::Cancel) && after == before,
        key.code != KeyCode::Enter && key.code != KeyCode::Esc ==> step.command is None,
        !step.leave,
{
}

/// What is chosen in the list is what the cursor stands on.
pub proof fn what_is_chosen_is_under_the_cursor(items: Seq<LaunchItem>, i: int)
    requires
        0 <= i < items.len(),
    ensures
        items[i] matches LaunchItem::Resume(row) ==> chosen(items, i) == KeyStep::Open(row),
        items[i] is NewSession ==> chosen(items, i) == KeyStep::AskTitle,
        items[i] is Header ==> chosen(items, i) == KeyStep::Stay,
{
}

/// A title is typed at its end, and given trimmed.
pub proof fn a_title_is_typed_at_its_end(before: Seq<char>, after: Seq<char>, key: Key, step: KeyStep)
    requires
        names(before, after, key, step),
    ensures
        key.code matches KeyCode::Char(c) ==> (!key.control ==> after == before.push(c)),
        key.code == KeyCode::Backspace && before.len() > 0 ==> after == before.drop_last(),
        key.code == KeyCode::Enter && trim(before).len() > 0 ==> (step matches KeyStep::Start {
            title,
        } && title@ == trim(before)),
        key.code == KeyCode::Esc ==> step == KeyStep::ShowList,
{
}

/// Scrolling goes by the step, and stops at the two ends.
pub proof fn scrolling_goes_by_the_step(lines: u16, step: u16)
    ensures
        lines + step <= u16::MAX ==> scrolled_up(lines, step) == lines + step,
        lines + step > u16::MAX ==> scrolled_up(lines, step) == u16::MAX,
        lines >= step ==> scrolled_down(lines, step) == lines - step,
        lines < step ==> scrolled_down(lines, step) == 0,
{
}

/// A spinner moves while a turn runs, or while some session on the list works,
/// and the screen is drawn for it only then.
pub proof fn only_what_works_is_animated(app: App, picker: Picker, i: int)
    requires
        0 <= i < picker.items@.len(),
        picker.items@[i] matches LaunchItem::Resume(row) && row.activity == Some(
            crate::store::Activity::Working,
        ),
    ensures
        animates(Screen::Chat(app)) == app.busy,
        animates(Screen::Launch(picker)),
{
    assert(is_working(picker.items@[i]));
}

/// What is pasted stands where the cursor was, whole and as it is, and nothing
/// is submitted; what the worker reports goes to the conversation.
pub proof fn what_is_pasted_is_not_submitted(
    app: App,
    text: String,
    tick: usize,
    numbers: Numbers,
    r: LoopStep,
)
    requires
        wakes(Screen::Chat(app), Wake::Paste(text), tick, numbers, r),
        app.wf(),
    ensures
        r.step == KeyStep::Stay,
        r.screen matches Screen::Chat(now) && now.input@ == app.input@.take(app.caret()) + text@
            + app.input@.skip(app.caret()) && now.caret() == app.caret() + text@.len()
            && now.blocks() == app.blocks() && now.input@.len() == app.input@.len() + text@.len(),
{
    crate::offsets::lemma_caret_in_bounds(app.input@, app.cursor as nat);
}

/// The wheel scrolls by its own step, and nothing else of it does anything.
pub proof fn the_wheel_scrolls_by_its_step(
    app: App,
    kind: MouseKind,
    tick: usize,
    numbers: Numbers,
    r: LoopStep,
)
    requires
        wakes(Screen::Chat(app), Wake::Mouse(kind), tick, numbers, r),
        MOUSE_SCROLL_STEP <= app.scroll_back <= u16::MAX - MOUSE_SCROLL_STEP,
    ensures
        r.screen matches Screen::Chat(now) && now.input == app.input && match kind {
            MouseKind::ScrollUp => now.scroll_back == app.scroll_back + MOUSE_SCROLL_STEP,
            MouseKind::ScrollDown => now.scroll_back == app.scroll_back - MOUSE_SCROLL_STEP,
            MouseKind::Other => now.scroll_back == app.scroll_back,
        },
{
}

/// A key of the list does what it says: one moves the cursor, one asks for a
/// new name starting from the old one, one asks before it deletes.
pub proof fn a_key_of_the_list_does_what_it_says(
    before: Picker,
    after: Picker,
    key: Key,
    step: KeyStep,
    row: SessionRow,
)
    requires
        before.renaming is None,
        before.confirming_repoint is None,
        before.confirming_delete is None,
        before.current() == Some(row),
        handles_list(before, after, key, step),
    ensures
        key.code == KeyCode::Char('r') ==> after.renaming == Some((row, row.title)) && step
            == KeyStep::Stay,
        key.code == KeyCode::Char('d') ==> after.confirming_delete == Some(row) && step
            == KeyStep::Stay,
        key.code == KeyCode::Char('q') ==> step == KeyStep::Quit,
        key.code == KeyCode::Enter ==> step == KeyStep::Open(row),
        after.items == before.items,
{
}

/// A rename is typed at its end, given trimmed and with its session, and can be
/// given up.
pub proof fn a_rename_is_given_with_its_session(
    before: Picker,
    after: Picker,
    key: Key,
    step: KeyStep,
    row: SessionRow,
    title: String,
)
    requires
        before.renaming == Some((row, title)),
        handles_list(before, after, key, step),
    ensures
        key.code == KeyCode::Enter && trim(title@).len() > 0 ==> (step matches KeyStep::Rename {
            id,
            title: given,
        } && id == row.id && given@ == trim(title@)) && after.renaming is None,
        key.code == KeyCode::Esc ==> after.renaming is None && step == KeyStep::Stay,
        key.code matches KeyCode::Char(c) ==> (!key.control ==> (after.renaming matches Some((
            r,
            t,
        )) && r == row && t@ == title@.push(c))),
        key.code == KeyCode::Backspace && title@.len() > 0 ==> (after.renaming matches Some((r, t))
            && r == row && t@ == title@.drop_last()),
{
}

/// What the screen asks of the program is what the key asked for.
pub proof fn what_a_key_asks_for_is_asked(step: ChatStep)
    ensures
        step.leave ==> chat_request(step) == KeyStep::LeaveChat,
        !step.leave ==> (step.command matches Some(command) ==> chat_request(step)
            == KeyStep::Send(command)),
        !step.leave && step.command is None ==> chat_request(step) == KeyStep::Stay,
{
}

/// The settings that the screen shows are its own.
pub proof fn the_screen_shows_its_own_settings(app: App, shown: Option<Seq<char>>)
    ensures
        shown_settings(app, shown).contains(("Title"@, app.title@)),
        shown_settings(app, shown).contains(("Model"@, app.model@)),
        shown_settings(app, shown).contains(("ID"@, shown_id(app.session_id@))),
        shown matches Some(t) ==> shown_settings(app, shown).contains(("Temperature"@, t)),
        app.max_iterations matches Some(n) ==> shown_settings(app, shown).contains(
            ("Max iterations"@, crate::text::decimal(n as nat)),
        ),
        app.effort_level matches Some(level) ==> shown_settings(app, shown).contains(
            ("Effort"@, level@),
        ),
        app.sandbox ==> shown_settings(app, shown).contains(("Sandbox"@, "on"@)),
        app.verbose ==> shown_settings(app, shown).contains(("Verbose"@, "on"@)),
{
    crate::ui::each_setting_stands_under_its_name(
        shown_id(app.session_id@),
        app.title@,
        app.model@,
        app.agentic,
        opt_view(app.effort_level),
        shown,
        app.max_iterations,
        app.sandbox,
        app.verbose,
        app.approval,
    );
}

/// Each key of the conversation does its own: escape stops a turn that runs,
/// the pages and the end scroll, down goes on to what was said later, and one
/// leaves.
pub proof fn each_key_does_its_own(
    before: App,
    after: App,
    key: Key,
    numbers: Numbers,
    step: ChatStep,
)
    requires
        handles_input(before, after, key, numbers, step),
        !key.control,
    ensures
        !step.leave,
        key.code == KeyCode::Esc && before.busy ==> step.command == Some(Command::Cancel),
        key.code == KeyCode::Esc && !before.busy ==> step.command is None,
        key.code == KeyCode::Esc ==> after == before,
        key.code == KeyCode::End ==> after.scroll_back == 0 && after.input == before.input,
        key.code == KeyCode::PageUp && before.scroll_back + PAGE_STEP <= u16::MAX
            ==> after.scroll_back == before.scroll_back + PAGE_STEP,
        key.code == KeyCode::PageDown && before.scroll_back >= PAGE_STEP ==> after.scroll_back
            == before.scroll_back - PAGE_STEP,
        key.code == KeyCode::Up && before.input_history@.len() > 0 && before.recalled is None
            ==> after.input == before.input_history@.last(),
        key.code == KeyCode::Down ==> (before.recalled matches Some(i) ==> (i + 1
            < before.input_history@.len() ==> after.input == before.input_history@[i + 1]
            && after.recalled == Some((i + 1) as usize)) && (i + 1 >= before.input_history@.len()
            ==> after.input@.len() == 0 && after.recalled is None)),
        key.code != KeyCode::Enter ==> after.blocks() == before.blocks(),
{
}

/// The chord for the list leaves the conversation as it is.
pub proof fn one_chord_leaves_for_the_list(
    before: App,
    after: App,
    key: Key,
    numbers: Numbers,
    step: ChatStep,
)
    requires
        handles_input(before, after, key, numbers, step),
        key.control,
        key.code == KeyCode::Char('b'),
    ensures
        step.leave,
        step.command is None,
        after == before,
{
}

/// A call that is allowed is shown to run, and one that is not stays as it is
/// until the worker says more.
pub proof fn an_allowed_call_is_shown_to_run(
    before: App,
    after: App,
    key: Key,
    step: ChatStep,
    front: Seq<ItemView>,
    name: Seq<char>,
    arguments: Seq<char>,
)
    requires
        answers_question(before, after, key, step),
        key.code == KeyCode::Enter,
        before.blocks() == front.push(
            ItemView::ToolCall {
                name,
                arguments,
                status: crate::tui::app::StatusView::AwaitingApproval,
            },
        ),
    ensures
        step.command == Some(Command::Approve(true)) ==> after.blocks() == front.push(
            ItemView::ToolCall {
                name,
                arguments,
                status: crate::tui::app::StatusView::Running,
            },
        ),
        step.command == Some(Command::Approve(false)) ==> after.blocks() == before.blocks(),
{
    assert(before.blocks().drop_last() =~= front);
}

/// Only the letter for yes confirms.
pub proof fn only_the_letter_confirms(code: KeyCode)
    ensures
        confirms(KeyCode::Char('y')),
        confirms(KeyCode::Char('Y')),
        !(code is Char) ==> !confirms(code),
        code matches KeyCode::Char(c) ==> (c != 'y' && c != 'Y' ==> !confirms(code)),
{
}

/// The spinner counts on, and starts again behind the last number.
pub proof fn the_spinner_counts_on(tick: usize)
    ensures
        tick < usize::MAX ==> next_tick(tick) == tick + 1,
        next_tick(usize::MAX) == 0,
{
}

/// A command holds what is asked of the worker.
pub proof fn a_command_holds_what_is_asked(
    text: String,
    enabled: bool,
    cap: Option<usize>,
    t: Option<Temperature>,
    level: Option<String>,
)
    ensures
        command_view(Command::Send(text)) == CommandView::Send(text@),
        command_view(Command::Approve(enabled)) == CommandView::Approve(enabled),
        command_view(Command::Cancel) == CommandView::Cancel,
        command_view(Command::SetModel(text)) == CommandView::SetModel(text@),
        command_view(Command::SetAgentic(enabled)) == CommandView::SetAgentic(enabled),
        command_view(Command::SetEffort(level)) == CommandView::SetEffort(opt_view(level)),
        command_view(Command::SetVerbose(enabled)) == CommandView::SetVerbose(enabled),
        command_view(Command::SetStream(enabled)) == CommandView::SetStream(enabled),
        command_view(Command::SetTitle(text)) == CommandView::SetTitle(text@),
        command_view(Command::SetSandbox(enabled)) == CommandView::SetSandbox(enabled),
        command_view(Command::SetMaxIterations(cap)) == CommandView::SetMaxIterations(cap),
        command_view(Command::SetTemperature(t)) == CommandView::SetTemperature(t),
        command_view(Command::SetApproval { category: text, enabled })
            == (CommandView::SetApproval { category: text@, enabled }),
{
}

} // verus!
