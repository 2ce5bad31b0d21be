//! A session at a plain terminal: what is printed of what was said, what a
//! line that was typed means, and what its commands change.

use vstd::prelude::*;
use vstd::string::*;

use crate::client::{is_visible, ChatMessage};
use crate::commands::{
    a_plain_line_shows_its_text, approval_changed, approval_changed_line, approval_status,
    cap_shown, cap_text, done, done_line, one_output, plain, plain_line, push_approval_status, refused, refused_line,
};
use crate::config::{category_switched, Temperature};
use crate::offsets::{cut, on_boundary};
use crate::session::{Change, ChatSession};
use crate::store::{SessionSummary, StoredMessage, KIND_AGENT_CHAT};
use crate::terminal_ui::{
    a_signed_line_shows_its_text, gap, gap_line, no_output, output_views, printed, push_output,
    signed, signed_line, Output, OutputView, TerminalAgentUi,
};
use crate::text::{
    cases_agree, chars_of, clone_opt, concat2, concat3, concat4, decimal, lowercase, opt_view,
    repeat, same, string_views, to_lowercase, trim, trim_chars,
};
use crate::tui::rows::{
    one_span, pieces_stand_one_behind_the_other, push_span, span, span_of, span_views, two_spans,
    Span, Tone,
};
use crate::tui::transcript::{align_left, label_width, left_aligned, widest};
use crate::ui::{
    classify, label_text, notice, notice_text, on_off, on_off_text, pair_views, reading,
    response_label, sandbox_notice, sandbox_state_text, seq_or, session_settings_rows,
    settings_table, table_of, verb_text, SessionSettings, Submission,
};
use crate::wrap::{wrap_indented_to, wrap_to, wrapped};

verus! {

/// What is printed of one saved message.
pub open spec fn message_lines(stored: StoredMessage, width: usize) -> Seq<OutputView> {
    match stored.message.content {
        Some(content) => {
            let text = wrapped(content@, width, "\n"@ + "  "@);
            if stored.message.role@ == "user"@ {
                seq![signed("\u{276f}"@, Tone::GreenBold, text)]
            } else if stored.message.role@ == "assistant"@ {
                seq![gap(), signed("\u{25cf}"@, Tone::Cyan, text), gap()]
            } else {
                Seq::empty()
            }
        },
        None => Seq::empty(),
    }
}

/// What is printed of a saved conversation: what the user and the model said.
pub open spec fn conversation_lines(history: Seq<StoredMessage>, width: usize) -> Seq<OutputView>
    decreases history.len(),
{
    if history.len() == 0 {
        Seq::empty()
    } else {
        conversation_lines(history.drop_last(), width) + message_lines(history.last(), width)
    }
}

fn push_message(outputs: &mut Vec<Output>, stored: &StoredMessage, width: usize)
    ensures
        output_views(final(outputs)@) == output_views(old(outputs)@) + message_lines(
            *stored,
            width,
        ),
{
    let ghost before = output_views(outputs@);
    match &stored.message.content {
        Some(content) => {
            if same(&stored.message.role, "user") {
                let text: String = wrap_indented_to(content, "  ", width);
                push_output(outputs, signed_line("\u{276f}", Tone::GreenBold, &text));
            } else if same(&stored.message.role, "assistant") {
                let text: String = wrap_indented_to(content, "  ", width);
                push_output(outputs, gap_line());
                push_output(outputs, signed_line("\u{25cf}", Tone::Cyan, &text));
                push_output(outputs, gap_line());
            }
        },
        None => {},
    }
    assert(output_views(outputs@) =~= before + message_lines(*stored, width));
}

/// What is printed of a saved conversation, at a given width.
pub fn transcript_lines(history: &Vec<StoredMessage>, width: usize) -> (r: Vec<Output>)
    ensures
        output_views(r@) == conversation_lines(history@, width),
{
    let mut outputs: Vec<Output> = no_output();
    let mut i: usize = 0;
    assert(history@.take(0) =~= Seq::empty());
    while i < history.len()
        invariant
            i <= history@.len(),
            output_views(outputs@) == conversation_lines(history@.take(i as int), width),
        decreases history@.len() - i,
    {
        push_message(&mut outputs, &history[i], width);
        assert(history@.take(i + 1).drop_last() =~= history@.take(i as int));
        i = i + 1;
    }
    assert(history@.take(i as int) =~= history@);
    outputs
}

/// What is printed of a saved conversation, at the terminal's width.
pub fn print_transcript(history: &Vec<StoredMessage>) -> (r: Vec<Output>)
    ensures
        exists|width: usize|
            width >= 20 && output_views(r@) == #[trigger] conversation_lines(history@, width),
{
    transcript_lines(history, crate::wrap::text_width())
}

/// What the user said in a saved conversation, in its order.
pub fn user_prompts(history: &Vec<StoredMessage>) -> (r: Vec<String>)
    ensures
        string_views(r@) == crate::tui::open::history_inputs(history@),
{
    let mut prompts: Vec<String> = Vec::new();
    let mut i: usize = 0;
    assert(history@.take(0) =~= Seq::empty());
    assert(string_views(prompts@) =~= Seq::<Seq<char>>::empty());
    while i < history.len()
        invariant
            i <= history@.len(),
            string_views(prompts@) == crate::tui::open::history_inputs(history@.take(i as int)),
        decreases history@.len() - i,
    {
        let ghost before = string_views(prompts@);
        let message: &ChatMessage = &history[i].message;
        if same(&message.role, "user") {
            match &message.content {
                Some(text) => prompts.push(text.clone()),
                None => {},
            }
        }
        assert(history@.take(i + 1).drop_last() =~= history@.take(i as int));
        assert(string_views(prompts@) =~= before + crate::tui::open::message_inputs(
            history@[i as int],
        ));
        i = i + 1;
    }
    assert(history@.take(i as int) =~= history@);
    prompts
}

/// What a line that was typed asks for.
#[derive(Debug, Clone, PartialEq, Eq)]
pub enum Typed {
    /// Nothing.
    Blank,
    /// The session ends.
    Exit,
    /// A message is sent.
    Send(String),
    /// A command is carried out.
    Command(Submission),
}

/// What a line means, given what it is in lower case. `number` is what the
/// argument of a temperature command on it reads as.
pub fn typed_line(line: &str, lowered: &str, number: Option<Temperature>) -> (r: Typed)
    ensures
        if trim(line@).len() == 0 {
            r is Blank
        } else if lowered@ == "exit"@ {
            r is Exit
        } else {
            match r {
                Typed::Send(text) => reading(line@, number) == Submission::Message(text)@,
                Typed::Command(s) => !(s is Message) && s@ == reading(line@, number),
                _ => false,
            }
        },
{
    let chars: Vec<char> = chars_of(line);
    if trim_chars(&chars).len() == 0 {
        return Typed::Blank;
    }
    if same(lowered, "exit") {
        return Typed::Exit;
    }
    match classify(line, number) {
        Submission::Message(text) => Typed::Send(text),
        submission => Typed::Command(submission),
    }
}

/// What a line that was typed means.
pub fn read_line(line: &str, number: Option<Temperature>) -> (r: Typed)
    ensures
        trim(line@).len() > 0 ==> cases_agree(line@),
        if trim(line@).len() == 0 {
            r is Blank
        } else if lowercase(line@) == "exit"@ {
            r is Exit
        } else {
            match r {
                Typed::Send(text) => reading(line@, number) == Submission::Message(text)@,
                Typed::Command(s) => !(s is Message) && s@ == reading(line@, number),
                _ => false,
            }
        },
{
    let lowered: String = to_lowercase(line);
    typed_line(line, &lowered, number)
}

/// What a session goes back to when a setting is reset.
#[derive(Debug, Clone, PartialEq, Eq)]
pub struct Defaults {
    pub max_iterations: Option<usize>,
    pub temperature: Option<Temperature>,
    pub effort_level: Option<String>,
}

/// How temperatures are shown: the one in force, the one that was typed, and
/// the default.
#[derive(Debug, Clone, PartialEq, Eq)]
pub struct Shown {
    pub current: Option<String>,
    pub typed: Option<String>,
    pub default: Option<String>,
}

/// What is said of a setting that was given a value.
pub open spec fn said(name: Seq<char>, changed: bool, value: Seq<char>) -> Seq<OutputView> {
    seq![done(notice_text(name, changed, value))]
}

fn say(name: &str, changed: bool, value: &str) -> (r: Vec<Output>)
    ensures
        output_views(r@) == said(name@, changed, value@),
{
    one_output(done_line(&notice(name, changed, value)))
}

/// The name of a mode, as it is said when it is switched.
pub open spec fn mode_name(agentic: bool) -> Seq<char> {
    if agentic {
        "agent mode (tools enabled)"@
    } else {
        "ask mode (no tools)"@
    }
}

/// The settings of a session, as its table shows them.
pub open spec fn session_table(session: ChatSession, shown: Option<Seq<char>>) -> Seq<
    (Seq<char>, Seq<char>),
> {
    table_of(
        cut(session.id@, 8),
        session.title@,
        session.model@,
        session.kind@ == KIND_AGENT_CHAT@,
        opt_view(session.effort_level),
        shown,
        session.max_iterations,
        session.sandbox,
        session.verbose,
        session.approval,
    )
}

/// A line of a table, with the labels filled up to the widest.
pub open spec fn table_line(row: (Seq<char>, Seq<char>), width: nat) -> OutputView {
    let (label, value) = row;
    OutputView::Line(
        seq![
            span_of("  "@, Tone::Plain),
            span_of(left_aligned(label, width), Tone::DarkGray),
            span_of("  "@ + value, Tone::Plain),
        ],
    )
}

pub open spec fn table_lines(rows: Seq<(Seq<char>, Seq<char>)>, width: nat) -> Seq<OutputView> {
    rows.map_values(|row: (Seq<char>, Seq<char>)| table_line(row, width))
}

/// What `/status` prints.
pub open spec fn status_table(rows: Seq<(Seq<char>, Seq<char>)>) -> Seq<OutputView> {
    seq![gap(), OutputView::Line(seq![span_of("Session:"@, Tone::Blue)])] + table_lines(
        rows,
        widest(rows),
    ) + seq![gap()]
}

fn show_table(rows: &Vec<(String, String)>) -> (r: Vec<Output>)
    ensures
        output_views(r@) == status_table(pair_views(rows@)),
{
    let width: usize = label_width(rows);
    let ghost all = pair_views(rows@);
    let ghost target = table_lines(all, width as nat);
    let mut outputs: Vec<Output> = one_output(gap_line());
    push_output(&mut outputs, Output::Line(one_span(span("Session:", Tone::Blue))));
    let ghost head = output_views(outputs@);
    assert(head =~= seq![gap(), OutputView::Line(seq![span_of("Session:"@, Tone::Blue)])]);
    let mut i: usize = 0;
    assert(head + target.take(0) =~= head);
    while i < rows.len()
        invariant
            i <= rows@.len(),
            all == pair_views(rows@),
            target == table_lines(all, width as nat),
            output_views(outputs@) == head + target.take(i as int),
        decreases rows@.len() - i,
    {
        let (label, value) = &rows[i];
        assert(all[i as int] == (label@, value@));
        let mut spans: Vec<Span> = two_spans(
            span("  ", Tone::Plain),
            Span { content: align_left(label, width), tone: Tone::DarkGray },
        );
        push_span(&mut spans, Span { content: concat2("  ", value), tone: Tone::Plain });
        assert(target[i as int] == table_line(all[i as int], width as nat));
        assert(span_views(spans@) =~= target[i as int]->Line_0);
        push_output(&mut outputs, Output::Line(spans));
        assert(head + target.take(i + 1) =~= (head + target.take(i as int)).push(
            target[i as int],
        ));
        i = i + 1;
    }
    assert(target.take(i as int) =~= target);
    push_output(&mut outputs, gap_line());
    assert(output_views(outputs@) =~= status_table(all));
    outputs
}

fn show_session(session: &ChatSession, shown: &Option<String>) -> (r: Vec<Output>)
    requires
        on_boundary(session.id@, 8),
    ensures
        output_views(r@) == status_table(session_table(*session, opt_view(*shown))),
{
    let settings: SessionSettings = SessionSettings {
        id: session.short_id(),
        title: &session.title,
        model: &session.model,
        agentic: session.is_agentic(),
        effort_level: match &session.effort_level {
            Some(level) => Some(level.as_str()),
            None => None,
        },
        temperature: match shown {
            Some(t) => Some(t.as_str()),
            None => None,
        },
        max_iterations: session.max_iterations,
        verbose: session.verbose,
        sandbox: session.sandbox,
        approval: &session.approval,
    };
    assert(settings_table(settings) == session_table(*session, opt_view(*shown)));
    let rows: Vec<(String, String)> = session_settings_rows(&settings);
    show_table(&rows)
}

/// What a command changes: a reset sets the default, and a toggle the other
/// value. A command that only shows something changes nothing.
pub open spec fn change(
    session: ChatSession,
    submission: Submission,
    defaults: Defaults,
) -> Option<Change> {
    match submission {
        Submission::SetModel(model) => Some(Change::Model(model)),
        Submission::SetAgentic(agentic) => Some(Change::Agentic(agentic)),
        Submission::SetEffort(level) => Some(Change::Effort(level)),
        Submission::ResetEffort => Some(Change::Effort(defaults.effort_level)),
        Submission::ToggleVerbose => Some(Change::Verbose(!session.verbose)),
        Submission::SetVerbose(verbose) => Some(Change::Verbose(verbose)),
        Submission::SetStream(stream) => Some(Change::Stream(stream)),
        Submission::SetTitle(title) => Some(Change::Title(title)),
        Submission::SetMaxIterations(cap) => Some(Change::MaxIterations(cap)),
        Submission::ResetMaxIterations => Some(Change::MaxIterations(defaults.max_iterations)),
        Submission::SetTemperature(t) => Some(Change::Temperature(t)),
        Submission::ResetTemperature => Some(Change::Temperature(defaults.temperature)),
        Submission::SetApproval { category, enabled } => Some(
            Change::Approval(category_switched(session.approval, category@, enabled)),
        ),
        Submission::SetSandbox(sandbox) => Some(Change::Sandbox(sandbox)),
        _ => None,
    }
}

/// What a command changes, to be written where it differs from what is there.
pub fn change_of(session: &ChatSession, submission: &Submission, defaults: &Defaults) -> (r: Option<
    Change,
>)
    ensures
        r == change(*session, *submission, *defaults),
{
    match submission {
        Submission::SetModel(model) => Some(Change::Model(model.clone())),
        Submission::SetAgentic(agentic) => Some(Change::Agentic(*agentic)),
        Submission::SetEffort(level) => Some(Change::Effort(clone_opt(level))),
        Submission::ResetEffort => Some(Change::Effort(clone_opt(&defaults.effort_level))),
        Submission::ToggleVerbose => Some(Change::Verbose(!session.verbose)),
        Submission::SetVerbose(verbose) => Some(Change::Verbose(*verbose)),
        Submission::SetStream(stream) => Some(Change::Stream(*stream)),
        Submission::SetTitle(title) => Some(Change::Title(title.clone())),
        Submission::SetMaxIterations(cap) => Some(Change::MaxIterations(*cap)),
        Submission::ResetMaxIterations => Some(Change::MaxIterations(defaults.max_iterations)),
        Submission::SetTemperature(t) => Some(Change::Temperature(*t)),
        Submission::ResetTemperature => Some(Change::Temperature(defaults.temperature)),
        Submission::SetApproval { category, enabled } => Some(
            Change::Approval(session.approval.with_category(category, *enabled)),
        ),
        Submission::SetSandbox(sandbox) => Some(Change::Sandbox(*sandbox)),
        _ => None,
    }
}

/// What is said of a command that set something, given whether it differs from
/// what was in force. A temperature that compares as equal is shown as the one
/// in force, and otherwise as it was typed.
pub open spec fn change_said(
    session: ChatSession,
    submission: Submission,
    changed: bool,
    defaults: Defaults,
    shown: Shown,
) -> Seq<OutputView> {
    match submission {
        Submission::SetModel(model) => said("Model"@, changed, model@),
        Submission::SetAgentic(agentic) => seq![
            done(
                (if agentic != (session.kind@ == KIND_AGENT_CHAT@) {
                    "Switched to "@
                } else {
                    "Already in "@
                }) + mode_name(agentic),
            ),
        ],
        Submission::SetEffort(level) => said(
            "Effort"@,
            changed,
            seq_or(opt_view(level), "default"@),
        ),
        Submission::ResetEffort => said(
            "Effort"@,
            changed,
            seq_or(opt_view(defaults.effort_level), "default"@),
        ),
        Submission::ToggleVerbose => seq![done("Verbose mode "@ + on_off_text(!session.verbose))],
        Submission::SetVerbose(verbose) => seq![done("Verbose mode "@ + on_off_text(verbose))],
        Submission::SetStream(stream) => said("Streaming"@, changed, on_off_text(stream)),
        Submission::SetTitle(title) => said("Title"@, true, title@),
        Submission::SetMaxIterations(cap) => said(
            "Max iterations"@,
            changed,
            cap_text(cap, "default"@),
        ),
        Submission::ResetMaxIterations => said(
            "Max iterations"@,
            changed,
            cap_text(defaults.max_iterations, "(not set)"@),
        ),
        Submission::SetTemperature(_) => said(
            "Temperature"@,
            changed,
            seq_or(
                if changed {
                    opt_view(shown.typed)
                } else {
                    opt_view(shown.current)
                },
                "default"@,
            ),
        ),
        Submission::ResetTemperature => said(
            "Temperature"@,
            changed,
            seq_or(opt_view(shown.default), "(not set)"@),
        ),
        Submission::SetApproval { category, enabled } => seq![
            approval_changed("Approval "@ + verb_text(changed) + " "@, enabled),
        ],
        Submission::SetSandbox(sandbox) => seq![sandbox_line(sandbox, true)],
        _ => Seq::empty(),
    }
}

/// What a command that only shows something prints.
pub open spec fn setting_shown(session: ChatSession, submission: Submission, shown: Shown) -> Seq<
    OutputView,
> {
    match submission {
        Submission::ShowModel => seq![
            plain("Model: "@ + label_text(session.model@, opt_view(session.effort_level))),
        ],
        Submission::ShowVerbose => seq![
            plain(notice_text("Verbose"@, false, on_off_text(session.verbose))),
        ],
        Submission::ShowStream => seq![
            plain(notice_text("Streaming"@, false, on_off_text(session.stream))),
        ],
        Submission::ShowTitle => seq![plain(notice_text("Title"@, false, session.title@))],
        Submission::ShowTemperature => seq![
            plain(
                notice_text(
                    "Temperature"@,
                    false,
                    seq_or(opt_view(shown.current), "none sent"@),
                ),
            ),
        ],
        Submission::ShowApproval => seq![
            OutputView::Line(seq![span_of("Approval Settings:"@, Tone::Blue)]),
        ] + approval_status(session.approval),
        Submission::ShowSandbox => seq![sandbox_line(session.sandbox, false)],
        Submission::ShowStatus => status_table(session_table(session, opt_view(shown.current))),
        Submission::UnknownCommand(message) => seq![refused(message@)],
        _ => Seq::empty(),
    }
}

/// What a command does to the session, and what is printed of it: an error
/// where a change had to be written and was not.
pub open spec fn applies(
    before: ChatSession,
    after: ChatSession,
    submission: Submission,
    defaults: Defaults,
    shown: Shown,
    saved: Result<(), String>,
    r: Result<Vec<Output>, String>,
) -> bool {
    match change(before, submission, defaults) {
        Some(made) => {
            let changed = before.differs(made);
            &&& before.changed_to(after, made, saved)
            &&& if changed && saved is Err {
                r is Err && r->Err_0 == saved->Err_0
            } else {
                r is Ok && output_views(r->Ok_0@) == change_said(
                    before,
                    submission,
                    changed,
                    defaults,
                    shown,
                )
            }
        },
        None => {
            &&& after == before
            &&& r is Ok
            &&& output_views(r->Ok_0@) == setting_shown(before, submission, shown)
        },
    }
}

/// What is said about the sandbox.
pub open spec fn sandbox_line(sandbox: bool, changed: bool) -> OutputView {
    OutputView::Line(
        seq![
            span_of(notice_text("Sandbox"@, changed, sandbox_state_text(sandbox)), Tone::Blue),
        ],
    )
}

fn sandbox_said(sandbox: bool, changed: bool) -> (r: Vec<Output>)
    ensures
        output_views(r@) == seq![sandbox_line(sandbox, changed)],
{
    one_output(
        Output::Line(
            one_span(Span { content: sandbox_notice(sandbox, changed), tone: Tone::Blue }),
        ),
    )
}

/// How much the front end shows after a command.
pub open spec fn shows(
    ui: TerminalAgentUi,
    before: ChatSession,
    submission: Submission,
    defaults: Defaults,
    saved: Result<(), String>,
) -> TerminalAgentUi {
    match change(before, submission, defaults) {
        Some(Change::Verbose(verbose)) => if saved is Ok || verbose == before.verbose {
            TerminalAgentUi { verbose, ..ui }
        } else {
            ui
        },
        _ => ui,
    }
}

fn say_mode(session: &ChatSession, agentic: bool) -> (r: Vec<Output>)
    ensures
        output_views(r@) == seq![
            done(
                (if agentic != (session.kind@ == KIND_AGENT_CHAT@) {
                    "Switched to "@
                } else {
                    "Already in "@
                }) + mode_name(agentic),
            ),
        ],
{
    let text: String = concat2(
        if agentic != session.is_agentic() {
            "Switched to "
        } else {
            "Already in "
        },
        if agentic {
            "agent mode (tools enabled)"
        } else {
            "ask mode (no tools)"
        },
    );
    one_output(done_line(&text))
}

fn say_or(name: &str, changed: bool, value: &Option<String>, fallback: &str) -> (r: Vec<Output>)
    ensures
        output_views(r@) == said(name@, changed, seq_or(opt_view(*value), fallback@)),
{
    match value {
        Some(v) => say(name, changed, v),
        None => say(name, changed, fallback),
    }
}

fn say_change(
    session: &ChatSession,
    submission: &Submission,
    changed: bool,
    defaults: &Defaults,
    shown: &Shown,
) -> (r: Vec<Output>)
    ensures
        output_views(r@) == change_said(*session, *submission, changed, *defaults, *shown),
{
    match submission {
        Submission::SetModel(model) => say("Model", changed, model),
        Submission::SetAgentic(agentic) => say_mode(session, *agentic),
        Submission::SetEffort(level) => say_or("Effort", changed, level, "default"),
        Submission::ResetEffort => say_or("Effort", changed, &defaults.effort_level, "default"),
        Submission::ToggleVerbose => one_output(
            done_line(&concat2("Verbose mode ", &on_off(!session.verbose))),
        ),
        Submission::SetVerbose(verbose) => one_output(
            done_line(&concat2("Verbose mode ", &on_off(*verbose))),
        ),
        Submission::SetStream(stream) => say("Streaming", changed, &on_off(*stream)),
        Submission::SetTitle(title) => say("Title", true, title),
        Submission::SetMaxIterations(cap) => say(
            "Max iterations",
            changed,
            &cap_shown(*cap, "default"),
        ),
        Submission::ResetMaxIterations => say(
            "Max iterations",
            changed,
            &cap_shown(defaults.max_iterations, "(not set)"),
        ),
        Submission::SetTemperature(_) => if changed {
            say_or("Temperature", changed, &shown.typed, "default")
        } else {
            say_or("Temperature", changed, &shown.current, "default")
        },
        Submission::ResetTemperature => say_or(
            "Temperature",
            changed,
            &shown.default,
            "(not set)",
        ),
        Submission::SetApproval { category, enabled } => {
            let what: String = concat3(
                "Approval ",
                if changed {
                    "set to"
                } else {
                    "is"
                },
                " ",
            );
            one_output(approval_changed_line(&what, *enabled))
        },
        Submission::SetSandbox(sandbox) => sandbox_said(*sandbox, true),
        _ => no_output(),
    }
}

fn show_setting(session: &ChatSession, submission: &Submission, shown: &Shown) -> (r: Vec<Output>)
    requires
        *submission is ShowStatus ==> on_boundary(session.id@, 8),
    ensures
        output_views(r@) == setting_shown(*session, *submission, *shown),
{
    match submission {
        Submission::ShowModel => one_output(
            plain_line(
                concat2("Model: ", &response_label(&session.model, &session.effort_level)),
            ),
        ),
        Submission::ShowVerbose => one_output(
            plain_line(notice("Verbose", false, &on_off(session.verbose))),
        ),
        Submission::ShowStream => one_output(
            plain_line(notice("Streaming", false, &on_off(session.stream))),
        ),
        Submission::ShowTitle => one_output(plain_line(notice("Title", false, &session.title))),
        Submission::ShowTemperature => one_output(
            plain_line(
                match &shown.current {
                    Some(t) => notice("Temperature", false, t),
                    None => notice("Temperature", false, "none sent"),
                },
            ),
        ),
        Submission::ShowApproval => {
            let mut outputs: Vec<Output> = one_output(
                Output::Line(one_span(span("Approval Settings:", Tone::Blue))),
            );
            push_approval_status(&mut outputs, &session.approval);
            outputs
        },
        Submission::ShowSandbox => sandbox_said(session.sandbox, false),
        Submission::ShowStatus => show_session(session, &shown.current),
        Submission::UnknownCommand(message) => one_output(refused_line(message)),
        _ => no_output(),
    }
}

/// Carries out a command of a session. `saved` is how writing the change went,
/// where it had to be; where that failed, nothing changes.
pub fn apply_submission(
    session: &mut ChatSession,
    ui: &mut TerminalAgentUi,
    submission: Submission,
    defaults: &Defaults,
    shown: &Shown,
    saved: Result<(), String>,
) -> (r: Result<Vec<Output>, String>)
    requires
        !(submission is Message),
        submission is ShowStatus ==> on_boundary(old(session).id@, 8),
    ensures
        applies(*old(session), *final(session), submission, *defaults, *shown, saved, r),
        *final(ui) == shows(*old(ui), *old(session), submission, *defaults, saved),
{
    match change_of(session, &submission, defaults) {
        Some(made) => {
            let changed: bool = session.needs_write(&made);
            let outputs: Vec<Output> = say_change(session, &submission, changed, defaults, shown);
            match session.make(&made, saved) {
                Ok(_) => {
                    match made {
                        Change::Verbose(verbose) => ui.set_verbose(verbose),
                        _ => {},
                    }
                    Ok(outputs)
                },
                Err(e) => Err(e),
            }
        },
        None => Ok(show_setting(session, &submission, shown)),
    }
}

/// A command whose change could not be written leaves the session as it was,
/// and says why.
pub proof fn a_failed_command_changes_nothing(
    before: ChatSession,
    after: ChatSession,
    submission: Submission,
    defaults: Defaults,
    shown: Shown,
    saved: Result<(), String>,
    r: Result<Vec<Output>, String>,
)
    requires
        applies(before, after, submission, defaults, shown, saved, r),
        r is Err,
    ensures
        saved is Err,
        r->Err_0 == saved->Err_0,
        after == (ChatSession { kind: after.kind, ..before }),
        after.kind@ == before.kind@,
{
}

/// No command touches what was said, nor how much of it is saved.
pub proof fn a_command_keeps_the_conversation(
    before: ChatSession,
    after: ChatSession,
    submission: Submission,
    defaults: Defaults,
    shown: Shown,
    saved: Result<(), String>,
    r: Result<Vec<Output>, String>,
)
    requires
        applies(before, after, submission, defaults, shown, saved, r),
    ensures
        after.messages == before.messages,
        after.saved_len == before.saved_len,
        after.id == before.id,
{
}

/// What is printed when a session is resumed: that a model was named in vain,
/// and which session it is.
pub fn resuming_lines(summary: &SessionSummary, model_named: bool) -> (r: Vec<Output>)
    ensures
        output_views(r@) == (if model_named {
            seq![
                signed(
                    "note:"@,
                    Tone::DarkGray,
                    "Ignoring --model: resumed sessions keep their saved model"@,
                ),
            ]
        } else {
            Seq::<OutputView>::empty()
        }) + seq![
            done("Resuming session "@ + summary.id@ + " ("@ + summary.title@ + ")"@),
            gap(),
        ],
{
    let mut outputs: Vec<Output> = no_output();
    if model_named {
        push_output(
            &mut outputs,
            signed_line(
                "note:",
                Tone::DarkGray,
                "Ignoring --model: resumed sessions keep their saved model",
            ),
        );
    }
    let ghost noted: Seq<OutputView> = if model_named {
        seq![
            signed(
                "note:"@,
                Tone::DarkGray,
                "Ignoring --model: resumed sessions keep their saved model"@,
            ),
        ]
    } else {
        Seq::empty()
    };
    assert(output_views(outputs@) =~= noted);
    let mut text: String = concat4("Resuming session ", &summary.id, " (", &summary.title);
    text.append(")");
    push_output(&mut outputs, done_line(&text));
    push_output(&mut outputs, gap_line());
    assert(output_views(outputs@) =~= noted + seq![
        done("Resuming session "@ + summary.id@ + " ("@ + summary.title@ + ")"@),
        gap(),
    ]);
    outputs
}

/// What is printed when a session ends.
pub fn saved_line(session: &ChatSession) -> (r: Output)
    requires
        on_boundary(session.id@, 8),
    ensures
        r@ == done("Session saved. Resume with: comms session --resume "@ + cut(session.id@, 8)),
{
    done_line(
        &concat2("Session saved. Resume with: comms session --resume ", session.short_id()),
    )
}

/// What is printed of the answer to a single question, at a given width.
pub fn answer_lines(
    model: &str,
    effort_level: &Option<String>,
    message: &ChatMessage,
    width: usize,
) -> (r: Vec<Output>)
    ensures
        output_views(r@) == seq![
            OutputView::Line(
                seq![span_of("\u{2713}"@, Tone::Green), span_of(" "@, Tone::Plain)],
            ),
            gap(),
            OutputView::Line(
                seq![
                    span_of(label_text(model@, opt_view(*effort_level)), Tone::Cyan),
                    span_of(":"@, Tone::Plain),
                ],
            ),
        ] + (if is_visible(message.content) {
            seq![plain(wrapped(message.content->0@, width, "\n"@))]
        } else {
            Seq::<OutputView>::empty()
        }),
{
    let mut outputs: Vec<Output> = one_output(
        Output::Line(two_spans(span("\u{2713}", Tone::Green), span(" ", Tone::Plain))),
    );
    push_output(&mut outputs, gap_line());
    push_output(
        &mut outputs,
        Output::Line(
            two_spans(
                Span { content: response_label(model, effort_level), tone: Tone::Cyan },
                span(":", Tone::Plain),
            ),
        ),
    );
    let ghost head = output_views(outputs@);
    assert(head =~= seq![
        OutputView::Line(seq![span_of("\u{2713}"@, Tone::Green), span_of(" "@, Tone::Plain)]),
        gap(),
        OutputView::Line(
            seq![
                span_of(label_text(model@, opt_view(*effort_level)), Tone::Cyan),
                span_of(":"@, Tone::Plain),
            ],
        ),
    ]);
    if message.has_visible_content() {
        match &message.content {
            Some(content) => push_output(&mut outputs, plain_line(wrap_to(content, width))),
            None => {},
        }
    }
    assert(output_views(outputs@) =~= head + (if is_visible(message.content) {
        seq![plain(wrapped(message.content->0@, width, "\n"@))]
    } else {
        Seq::<OutputView>::empty()
    }));
    outputs
}

/// A saved conversation is printed in its order: what the user and the model
/// said, each behind its sign, and nothing that was said by others.
pub proof fn a_saved_conversation_is_printed_in_its_order(
    history: Seq<StoredMessage>,
    stored: StoredMessage,
    width: usize,
)
    ensures
        conversation_lines(Seq::empty(), width).len() == 0,
        conversation_lines(history.push(stored), width) == conversation_lines(history, width)
            + message_lines(stored, width),
        stored.message.content is None ==> message_lines(stored, width).len() == 0,
        stored.message.role@ != "user"@ && stored.message.role@ != "assistant"@ ==> message_lines(
            stored,
            width,
        ).len() == 0,
        stored.message.role@ == "user"@ ==> (stored.message.content matches Some(text)
            ==> message_lines(stored, width).len() == 1 && printed(message_lines(stored, width)[0])
            == "\u{276f}"@ + " "@ + wrapped(text@, width, "\n"@ + "  "@)),
        stored.message.role@ == "assistant"@ ==> (stored.message.content matches Some(text)
            ==> message_lines(stored, width).len() == 3 && printed(message_lines(stored, width)[1])
            == "\u{25cf}"@ + " "@ + wrapped(text@, width, "\n"@ + "  "@)),
{
    assert(history.push(stored).drop_last() =~= history);
    reveal_strlit("user");
    reveal_strlit("assistant");
    assert("user"@.len() != "assistant"@.len());
    match stored.message.content {
        Some(text) => {
            let shown = wrapped(text@, width, "\n"@ + "  "@);
            a_signed_line_shows_its_text("\u{276f}"@, Tone::GreenBold, shown);
            a_signed_line_shows_its_text("\u{25cf}"@, Tone::Cyan, shown);
        },
        None => {},
    }
}

/// A submission sets what it names, to what it says; a reset sets the default,
/// a toggle the opposite, and one that only shows something changes nothing.
pub proof fn a_submission_sets_what_it_names(
    before: ChatSession,
    after: ChatSession,
    submission: Submission,
    defaults: Defaults,
    shown: Shown,
    r: Result<Vec<Output>, String>,
)
    requires
        applies(before, after, submission, defaults, shown, Ok(()), r),
    ensures
        r is Ok,
        match submission {
            Submission::SetModel(model) => after.model@ == model@,
            Submission::SetAgentic(agentic) => (after.kind@ == KIND_AGENT_CHAT@) == agentic,
            Submission::SetEffort(level) => opt_view(after.effort_level) == opt_view(level),
            Submission::ResetEffort => opt_view(after.effort_level) == opt_view(
                defaults.effort_level,
            ),
            Submission::ToggleVerbose => after.verbose == !before.verbose,
            Submission::SetVerbose(verbose) => after.verbose == verbose,
            Submission::SetStream(stream) => after.stream == stream,
            Submission::SetTitle(title) => after.title@ == title@,
            Submission::SetMaxIterations(cap) => after.max_iterations == cap,
            Submission::ResetMaxIterations => after.max_iterations == defaults.max_iterations,
            Submission::SetApproval { category, enabled } => after.approval == category_switched(
                before.approval,
                category@,
                enabled,
            ),
            Submission::SetSandbox(sandbox) => after.sandbox == sandbox,
            Submission::SetTemperature(t) => after.temperature == t
                || crate::config::temperatures_equal(after.temperature, t),
            Submission::ResetTemperature => after.temperature == defaults.temperature
                || crate::config::temperatures_equal(after.temperature, defaults.temperature),
            _ => after == before,
        },
{
    match change(before, submission, defaults) {
        Some(made) => crate::session::a_change_sets_what_it_names(before, after, made, Ok(())),
        None => {},
    }
}

/// What is said of a change names the setting and its new value, and whether it
/// was the same before.
pub proof fn what_is_said_names_the_new_value(
    session: ChatSession,
    text: String,
    enabled: bool,
    cap: usize,
    changed: bool,
    defaults: Defaults,
    shown: Shown,
)
    ensures
        ({
            let verb = if changed {
                " set to "@
            } else {
                " is "@
            };
            &&& one_line_says(
                change_said(session, Submission::SetModel(text), changed, defaults, shown),
                "Model"@ + verb + text@,
            )
            &&& one_line_says(
                change_said(session, Submission::SetEffort(Some(text)), changed, defaults, shown),
                "Effort"@ + verb + text@,
            )
            &&& one_line_says(
                change_said(session, Submission::SetStream(enabled), changed, defaults, shown),
                "Streaming"@ + verb + if enabled {
                    "on"@
                } else {
                    "off"@
                },
            )
            &&& one_line_says(
                change_said(
                    session,
                    Submission::SetMaxIterations(Some(cap)),
                    changed,
                    defaults,
                    shown,
                ),
                "Max iterations"@ + verb + decimal(cap as nat),
            )
        }),
        one_line_says(
            change_said(session, Submission::SetTitle(text), changed, defaults, shown),
            "Title"@ + " set to "@ + text@,
        ),
        one_line_says(
            change_said(session, Submission::SetVerbose(enabled), changed, defaults, shown),
            "Verbose mode "@ + if enabled {
                "on"@
            } else {
                "off"@
            },
        ),
        one_line_says(
            change_said(session, Submission::ToggleVerbose, changed, defaults, shown),
            "Verbose mode "@ + if session.verbose {
                "off"@
            } else {
                "on"@
            },
        ),
{
    crate::ui::a_notice_says_what_and_to_what("Model"@, text@);
    crate::ui::a_notice_says_what_and_to_what("Effort"@, text@);
    crate::ui::a_notice_says_what_and_to_what("Streaming"@, on_off_text(enabled));
    crate::ui::a_notice_says_what_and_to_what("Max iterations"@, decimal(cap as nat));
    crate::ui::a_notice_says_what_and_to_what("Title"@, text@);
    a_signed_line_shows_its_text(
        "\u{2713}"@,
        Tone::Green,
        notice_text("Model"@, changed, text@),
    );
    a_signed_line_shows_its_text(
        "\u{2713}"@,
        Tone::Green,
        notice_text("Effort"@, changed, text@),
    );
    a_signed_line_shows_its_text(
        "\u{2713}"@,
        Tone::Green,
        notice_text("Streaming"@, changed, on_off_text(enabled)),
    );
    a_signed_line_shows_its_text(
        "\u{2713}"@,
        Tone::Green,
        notice_text("Max iterations"@, changed, decimal(cap as nat)),
    );
    a_signed_line_shows_its_text("\u{2713}"@, Tone::Green, notice_text("Title"@, true, text@));
    a_signed_line_shows_its_text(
        "\u{2713}"@,
        Tone::Green,
        "Verbose mode "@ + on_off_text(enabled),
    );
    a_signed_line_shows_its_text(
        "\u{2713}"@,
        Tone::Green,
        "Verbose mode "@ + on_off_text(!session.verbose),
    );
}

/// Whether one line is printed, which says a text behind the sign for done.
pub open spec fn one_line_says(lines: Seq<OutputView>, text: Seq<char>) -> bool {
    lines.len() == 1 && printed(lines[0]) == "\u{2713}"@ + " "@ + text
}

/// What is shown of a setting is what the session has.
pub proof fn what_is_shown_is_what_the_session_has(
    session: ChatSession,
    message: String,
    shown: Shown,
)
    ensures
        printed(setting_shown(session, Submission::ShowModel, shown)[0]) == "Model: "@ + label_text(
            session.model@,
            opt_view(session.effort_level),
        ),
        printed(setting_shown(session, Submission::ShowTitle, shown)[0]) == "Title"@ + " is "@
            + session.title@,
        printed(setting_shown(session, Submission::ShowVerbose, shown)[0]) == "Verbose"@ + " is "@
            + on_off_text(session.verbose),
        printed(setting_shown(session, Submission::ShowStream, shown)[0]) == "Streaming"@ + " is "@
            + on_off_text(session.stream),
        printed(setting_shown(session, Submission::UnknownCommand(message), shown)[0])
            == "\u{2717}"@ + " "@ + message@,
        on_off_text(true) == "on"@,
        on_off_text(false) == "off"@,
{
    crate::ui::a_notice_says_what_and_to_what("Title"@, session.title@);
    crate::ui::a_notice_says_what_and_to_what("Verbose"@, on_off_text(session.verbose));
    crate::ui::a_notice_says_what_and_to_what("Streaming"@, on_off_text(session.stream));
    a_plain_line_shows_its_text(
        "Model: "@ + label_text(session.model@, opt_view(session.effort_level)),
    );
    a_plain_line_shows_its_text(notice_text("Title"@, false, session.title@));
    a_plain_line_shows_its_text(notice_text("Verbose"@, false, on_off_text(session.verbose)));
    a_plain_line_shows_its_text(notice_text("Streaming"@, false, on_off_text(session.stream)));
    a_signed_line_shows_its_text("\u{2717}"@, Tone::Red, message@);
}

/// Each row of the settings table has a line, with its label and its value.
pub proof fn each_row_of_the_table_has_a_line(
    rows: Seq<(Seq<char>, Seq<char>)>,
    width: nat,
    i: int,
)
    requires
        0 <= i < rows.len(),
    ensures
        table_lines(rows, width).len() == rows.len(),
        rows[i].0.len() >= width ==> printed(table_lines(rows, width)[i]) == "  "@ + rows[i].0
            + "  "@ + rows[i].1,
        rows[i].0.len() < width ==> printed(table_lines(rows, width)[i]) == "  "@ + (rows[i].0
            + repeat(' ', (width - rows[i].0.len()) as nat)) + "  "@ + rows[i].1,
{
    let a = span_of("  "@, Tone::Plain);
    let b = span_of(left_aligned(rows[i].0, width), Tone::DarkGray);
    let c = span_of("  "@ + rows[i].1, Tone::Plain);
    pieces_stand_one_behind_the_other(a, b, c);
    assert("  "@ + b.content + ("  "@ + rows[i].1) =~= "  "@ + b.content + "  "@ + rows[i].1);
}

/// The table of a session holds its own settings.
pub proof fn the_table_holds_the_sessions_settings(
    session: ChatSession,
    temperature: Option<Seq<char>>,
)
    ensures
        session_table(session, temperature).contains(("Title"@, session.title@)),
        session_table(session, temperature).contains(("Model"@, session.model@)),
        session_table(session, temperature).contains(("ID"@, cut(session.id@, 8))),
        session.sandbox ==> session_table(session, temperature).contains(("Sandbox"@, "on"@)),
        session.effort_level matches Some(level) ==> session_table(session, temperature).contains(
            ("Effort"@, level@),
        ),
{
    crate::ui::each_setting_stands_under_its_name(
        cut(session.id@, 8),
        session.title@,
        session.model@,
        session.kind@ == KIND_AGENT_CHAT@,
        opt_view(session.effort_level),
        temperature,
        session.max_iterations,
        session.sandbox,
        session.verbose,
        session.approval,
    );
}

/// A switch of the mode says which one it is now, and whether it was it before.
pub proof fn a_mode_switch_says_the_mode(
    session: ChatSession,
    agentic: bool,
    changed: bool,
    defaults: Defaults,
    shown: Shown,
)
    ensures
        ({
            let lines = change_said(
                session,
                Submission::SetAgentic(agentic),
                changed,
                defaults,
                shown,
            );
            let was = session.kind@ == "agent_chat"@;
            &&& agentic && !was ==> one_line_says(
                lines,
                "Switched to "@ + "agent mode (tools enabled)"@,
            )
            &&& agentic && was ==> one_line_says(
                lines,
                "Already in "@ + "agent mode (tools enabled)"@,
            )
            &&& !agentic && was ==> one_line_says(lines, "Switched to "@ + "ask mode (no tools)"@)
            &&& !agentic && !was ==> one_line_says(lines, "Already in "@ + "ask mode (no tools)"@)
        }),
{
    a_signed_line_shows_its_text("\u{2713}"@, Tone::Green, "Switched to "@ + mode_name(agentic));
    a_signed_line_shows_its_text("\u{2713}"@, Tone::Green, "Already in "@ + mode_name(agentic));
}

/// What could not be written is answered with why, and changes nothing.
pub proof fn what_could_not_be_written_is_answered_with_why(
    before: ChatSession,
    after: ChatSession,
    submission: Submission,
    defaults: Defaults,
    shown: Shown,
    error: String,
    r: Result<Vec<Output>, String>,
)
    requires
        applies(before, after, submission, defaults, shown, Err(error), r),
    ensures
        after.model == before.model,
        after.kind@ == before.kind@,
        after.effort_level == before.effort_level,
        after.approval == before.approval,
        after.sandbox == before.sandbox,
        after.title == before.title,
        after.messages == before.messages,
        r matches Err(e) ==> e == error,
        submission is SetTitle ==> r is Err,
{
    match change(before, submission, defaults) {
        Some(made) => crate::session::a_change_sets_what_it_names(
            before,
            after,
            made,
            Err(error),
        ),
        None => {},
    }
}

/// What is said of the temperature, the effort and the rounds is what was set:
/// what was typed where it changed, what is where it did not, and the default
/// where that was asked for.
pub proof fn what_is_said_of_a_number_is_what_was_set(
    session: ChatSession,
    t: Option<Temperature>,
    defaults: Defaults,
    shown: Shown,
)
    ensures
        shown.typed matches Some(text) ==> one_line_says(
            change_said(session, Submission::SetTemperature(t), true, defaults, shown),
            "Temperature"@ + " set to "@ + text@,
        ),
        shown.current matches Some(text) ==> one_line_says(
            change_said(session, Submission::SetTemperature(t), false, defaults, shown),
            "Temperature"@ + " is "@ + text@,
        ),
        shown.default matches Some(text) ==> one_line_says(
            change_said(session, Submission::ResetTemperature, true, defaults, shown),
            "Temperature"@ + " set to "@ + text@,
        ),
        defaults.effort_level matches Some(level) ==> one_line_says(
            change_said(session, Submission::ResetEffort, true, defaults, shown),
            "Effort"@ + " set to "@ + level@,
        ),
        defaults.max_iterations matches Some(n) ==> one_line_says(
            change_said(session, Submission::ResetMaxIterations, true, defaults, shown),
            "Max iterations"@ + " set to "@ + decimal(n as nat),
        ),
{
    match shown.typed {
        Some(text) => a_done_notice_says("Temperature"@, text@),
        None => {},
    }
    match shown.current {
        Some(text) => a_done_notice_says("Temperature"@, text@),
        None => {},
    }
    match shown.default {
        Some(text) => a_done_notice_says("Temperature"@, text@),
        None => {},
    }
    match defaults.effort_level {
        Some(level) => a_done_notice_says("Effort"@, level@),
        None => {},
    }
    match defaults.max_iterations {
        Some(n) => a_done_notice_says("Max iterations"@, decimal(n as nat)),
        None => {},
    }
}

proof fn a_done_notice_says(name: Seq<char>, value: Seq<char>)
    ensures
        one_line_says(said(name, true, value), name + " set to "@ + value),
        one_line_says(said(name, false, value), name + " is "@ + value),
{
    crate::ui::a_notice_says_what_and_to_what(name, value);
    a_signed_line_shows_its_text("\u{2713}"@, Tone::Green, notice_text(name, true, value));
    a_signed_line_shows_its_text("\u{2713}"@, Tone::Green, notice_text(name, false, value));
}

/// What is printed of a turn follows the setting as soon as it is in force, and
/// no other command touches it.
pub proof fn the_terminal_follows_the_setting(
    ui: TerminalAgentUi,
    before: ChatSession,
    verbose: bool,
    model: String,
    defaults: Defaults,
    error: String,
)
    ensures
        shows(ui, before, Submission::SetVerbose(verbose), defaults, Ok(())).verbose == verbose,
        shows(ui, before, Submission::ToggleVerbose, defaults, Ok(())).verbose == !before.verbose,
        shows(ui, before, Submission::SetVerbose(before.verbose), defaults, Err(error)).verbose
            == before.verbose,
        verbose != before.verbose ==> shows(
            ui,
            before,
            Submission::SetVerbose(verbose),
            defaults,
            Err(error),
        ) == ui,
        shows(ui, before, Submission::SetModel(model), defaults, Ok(())) == ui,
{
}

} // verus!
