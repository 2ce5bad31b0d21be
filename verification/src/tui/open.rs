//! Opening a session: what is looked up, what can go wrong, and what the
//! screen shows of it.

use vstd::prelude::*;
use vstd::string::*;

use crate::agent::AGENT_CHAT_SYSTEM_PROMPT;
use crate::client::{is_visible, ChatMessage};
use crate::offsets::{can_cut, cut};
use crate::session::{ChatSession, EnteredDir};
use crate::store::{LastMessage, SessionSummary, StoredMessage};
use crate::text::{
    clone_opt, concat2, concat3, is_white, opt_view, same, split, str_view, string_views,
};
use crate::tui::app::{App, ItemView, TranscriptItem};
use crate::tui::keys::{OpenFailure, Screen};
use crate::tui::picker::{
    entries, listed, row_of_summary, rows_elsewhere, rows_here, session_spans, Picker, SessionRow,
    Surroundings,
};
use crate::tui::render::{
    all_wrapped, mark_text, mark_tone, markdown_rows, toned_lines, without_fences,
};
use crate::tui::rows::{no_wrapped_row_is_too_wide, span_of, SpanView, Tone};
use crate::tui::transcript::{assistant_rows, content_width, narrower, Look};
use crate::ui::{label_text, response_label};

verus! {

/// The blocks that one saved message shows.
pub open spec fn message_blocks(stored: StoredMessage) -> Seq<ItemView> {
    let m = stored.message;
    if m.role@ == "user"@ {
        match m.content {
            Some(text) => seq![ItemView::User(text@)],
            None => Seq::empty(),
        }
    } else if m.role@ == "assistant"@ {
        let thought: Seq<ItemView> = if is_visible(m.reasoning) {
            seq![ItemView::Thinking(m.reasoning->0@)]
        } else {
            Seq::empty()
        };
        let said: Seq<ItemView> = if is_visible(m.content) {
            seq![
                ItemView::Assistant {
                    text: m.content->0@,
                    streaming: false,
                    label: match stored.model {
                        Some(model) => Some(label_text(model@, opt_view(stored.effort_level))),
                        None => None,
                    },
                },
            ]
        } else {
            Seq::empty()
        };
        thought + said
    } else {
        Seq::empty()
    }
}

/// What a saved message adds to what can be recalled.
pub open spec fn message_inputs(stored: StoredMessage) -> Seq<Seq<char>> {
    if stored.message.role@ == "user"@ && stored.message.content is Some {
        seq![stored.message.content->0@]
    } else {
        Seq::empty()
    }
}

/// The blocks that a saved conversation shows.
pub open spec fn history_blocks(history: Seq<StoredMessage>) -> Seq<ItemView>
    decreases history.len(),
{
    if history.len() == 0 {
        Seq::empty()
    } else {
        history_blocks(history.drop_last()) + message_blocks(history.last())
    }
}

/// What the user said in a saved conversation.
pub open spec fn history_inputs(history: Seq<StoredMessage>) -> Seq<Seq<char>>
    decreases history.len(),
{
    if history.len() == 0 {
        Seq::empty()
    } else {
        history_inputs(history.drop_last()) + message_inputs(history.last())
    }
}

fn seed_message(app: &mut App, stored: &StoredMessage)
    ensures
        final(app).blocks() == old(app).blocks() + message_blocks(*stored),
        string_views(final(app).input_history@) == string_views(old(app).input_history@)
            + message_inputs(*stored),
        *final(app) == (App {
            transcript: final(app).transcript,
            input_history: final(app).input_history,
            ..*old(app)
        }),
{
    let message: &ChatMessage = &stored.message;
    let ghost blocks = app.blocks();
    let ghost inputs = string_views(app.input_history@);
    if same(&message.role, "user") {
        match &message.content {
            Some(text) => {
                app.push_item(TranscriptItem::User(text.clone()));
                app.input_history.push(text.clone());
            },
            None => {},
        }
    } else if same(&message.role, "assistant") {
        match message.thinking_text() {
            Some(thought) => app.push_item(TranscriptItem::Thinking(thought)),
            None => {},
        }
        if message.has_visible_content() {
            match &message.content {
                Some(text) => {
                    let label: Option<String> = match &stored.model {
                        Some(model) => Some(response_label(model, &stored.effort_level)),
                        None => None,
                    };
                    app.push_item(
                        TranscriptItem::Assistant { text: text.clone(), streaming: false, label },
                    );
                },
                None => {},
            }
        }
    }
    assert(app.blocks() =~= blocks + message_blocks(*stored));
    assert(string_views(app.input_history@) =~= inputs + message_inputs(*stored));
}

/// Shows a saved conversation: what the user and the model said, and what the
/// model thought. What the user said can be recalled.
pub fn seed_transcript(app: &mut App, history: &Vec<StoredMessage>)
    ensures
        final(app).blocks() == old(app).blocks() + history_blocks(history@),
        string_views(final(app).input_history@) == string_views(old(app).input_history@)
            + history_inputs(history@),
        *final(app) == (App {
            transcript: final(app).transcript,
            input_history: final(app).input_history,
            ..*old(app)
        }),
{
    let mut i: usize = 0;
    let ghost blocks = app.blocks();
    let ghost inputs = string_views(app.input_history@);
    assert(blocks + history_blocks(history@.take(0)) =~= blocks);
    assert(inputs + history_inputs(history@.take(0)) =~= inputs);
    while i < history.len()
        invariant
            i <= history@.len(),
            app.blocks() == blocks + history_blocks(history@.take(i as int)),
            string_views(app.input_history@) == inputs + history_inputs(history@.take(i as int)),
            *app == (App {
                transcript: app.transcript,
                input_history: app.input_history,
                ..*old(app)
            }),
        decreases history@.len() - i,
    {
        seed_message(app, &history[i]);
        assert(history@.take(i + 1).drop_last() =~= history@.take(i as int));
        assert(app.blocks() =~= blocks + history_blocks(history@.take(i + 1)));
        assert(string_views(app.input_history@) =~= inputs + history_inputs(history@.take(i + 1)));
        i = i + 1;
    }
    assert(history@.take(i as int) =~= history@);
}

/// The screen of a session, with what was said so far.
pub fn start_chat(session: &ChatSession, history: &Vec<StoredMessage>, agentic: bool) -> (r: App)
    ensures
        r.wf(),
        r.blocks() == history_blocks(history@),
        string_views(r.input_history@) == history_inputs(history@),
        r.recalled is None,
        r.input@.len() == 0,
        r.session_id == session.id,
        r.model == session.model,
        r.effort_level == session.effort_level,
        r.agentic == agentic,
        r.verbose == session.verbose,
        r.highlight == session.highlight,
        r.max_iterations == session.max_iterations,
        r.temperature == session.temperature,
        r.approval == session.approval,
        r.sandbox == session.sandbox,
        r.stream == session.stream,
        r.working_dir == session.working_dir,
        r.title == session.title,
        !r.busy,
        r.queued == 0,
        r.pending_approval is None,
        r.scroll_back == 0,
        r.focus == crate::tui::app::Focus::Input,
        r.pending@.len() == 0,
        r.pending_shell is None,
{
    let mut app: App = App::new(
        session.model.clone(),
        clone_opt(&session.effort_level),
        session.id.clone(),
    );
    app.agentic = agentic;
    app.verbose = session.verbose;
    app.highlight = session.highlight;
    app.max_iterations = session.max_iterations;
    app.temperature = session.temperature;
    app.approval = session.approval;
    app.sandbox = session.sandbox;
    app.stream = session.stream;
    app.working_dir = clone_opt(&session.working_dir);
    app.title = session.title.clone();
    assert(app.blocks() =~= Seq::<ItemView>::empty());
    assert(string_views(app.input_history@) =~= Seq::<Seq<char>>::empty());
    seed_transcript(&mut app, history);
    assert(app.blocks() =~= history_blocks(history@));
    assert(string_views(app.input_history@) =~= history_inputs(history@));
    app
}

/// The mark in front of a session's replies is the one that its row on the
/// list carries, whatever is said and however the row is shown.
pub proof fn the_gutter_shows_the_mark_of_the_row(
    session: ChatSession,
    app: App,
    look: Look,
    row: SessionRow,
    text: Seq<char>,
    streaming: bool,
    selected: bool,
    repeated: bool,
    around: Surroundings,
)
    requires
        app.session_id == session.id,
        look.session_id == app.session_id,
        row.id@ == session.id@,
    ensures
        ({
            let mark = mark_text(session.id@);
            let tone = Tone::Indexed(mark_tone(session.id@));
            let reply = assistant_rows(text, streaming, look);
            &&& reply.len() > 0
            &&& reply[0].spans.len() > 0
            &&& reply[0].spans[0] == span_of(mark + " "@, tone)
            &&& session_spans(row, selected, repeated, around).len() > 1
            &&& session_spans(row, selected, repeated, around)[1] == span_of(mark, tone)
        }),
{
    let width = narrower(content_width(look.width));
    if streaming {
        a_block_starts_with_its_prefix(
            toned_lines(split(text, '\n'), Tone::Plain),
            width,
        );
    } else {
        a_block_starts_with_its_prefix(without_fences(markdown_rows(text), false), width);
    }
}

proof fn a_block_starts_with_its_prefix(lines: Seq<Seq<SpanView>>, width: usize)
    ensures
        all_wrapped(
            if lines.len() == 0 {
                seq![Seq::empty()]
            } else {
                lines
            },
            width,
        ).len() > 0,
{
    let shown = if lines.len() == 0 {
        seq![Seq::<SpanView>::empty()]
    } else {
        lines
    };
    no_wrapped_row_is_too_wide(shown.last(), width);
}

/// What a new session starts with: with tools, the instructions for them.
pub fn first_message(agentic: bool) -> (r: Option<ChatMessage>)
    ensures
        match r {
            Some(m) => agentic && m.is_plain("system"@, AGENT_CHAT_SYSTEM_PROMPT@, None),
            None => !agentic,
        },
{
    if agentic {
        Some(ChatMessage::plain("system", String::from_str(AGENT_CHAT_SYSTEM_PROMPT)))
    } else {
        None
    }
}

/// What is said about the directory that a resumed session runs in.
pub open spec fn entered_block(entered: EnteredDir) -> Option<ItemView> {
    match entered {
        EnteredDir::Moved(dir) => Some(ItemView::Notice("Working directory: "@ + dir@)),
        EnteredDir::Unchanged => None,
        EnteredDir::Missing(dir) => Some(
            ItemView::Error(
                "This session was started in "@ + dir@
                    + ", which no longer exists \u{2014} it is running in the current directory instead, so its sandbox and relative paths point somewhere else than when it was saved."@,
            ),
        ),
    }
}

/// Says where a resumed session runs, unless that is where it was called.
pub fn show_entered(app: &mut App, entered: EnteredDir)
    ensures
        final(app).blocks() == match entered_block(entered) {
            Some(block) => old(app).blocks().push(block),
            None => old(app).blocks(),
        },
        *final(app) == (App { transcript: final(app).transcript, ..*old(app) }),
{
    match entered {
        EnteredDir::Moved(dir) => app.push_item(
            TranscriptItem::Notice(concat2("Working directory: ", &dir)),
        ),
        EnteredDir::Unchanged => {},
        EnteredDir::Missing(dir) => app.push_item(
            TranscriptItem::Error(
                concat3(
                    "This session was started in ",
                    &dir,
                    ", which no longer exists \u{2014} it is running in the current directory instead, so its sandbox and relative paths point somewhere else than when it was saved.",
                ),
            ),
        ),
    }
}

/// What is said of a session that is not in the store any more.
pub open spec fn no_longer_exists(id: Seq<char>) -> Seq<char> {
    "Session "@ + cut(id, 8) + " no longer exists"@
}

/// The session that is to be opened, as the store has it now.
pub fn found_session(row: &SessionRow, found: Option<SessionSummary>) -> (r: Result<
    SessionSummary,
    String,
>)
    requires
        found is None ==> can_cut(row.id@, 8),
    ensures
        match found {
            Some(summary) => r == Ok::<SessionSummary, String>(summary),
            None => r matches Err(message) && message@ == no_longer_exists(row.id@),
        },
{
    match found {
        Some(summary) => Ok(summary),
        None => Err(concat3("Session ", row.short_id(), " no longer exists")),
    }
}

/// Whether a session can be opened: it has to be in the store, and the
/// directory it records, if any, has to be there. `is_dir` says whether that
/// is a directory.
pub fn openable(row: &SessionRow, found: Option<SessionSummary>, is_dir: bool) -> (r: Result<
    SessionSummary,
    OpenFailure,
>)
    requires
        found is None ==> can_cut(row.id@, 8),
    ensures
        match found {
            Some(summary) => match summary.working_dir {
                Some(dir) if !is_dir => r == Err::<SessionSummary, OpenFailure>(
                    OpenFailure::MissingDir(dir),
                ),
                _ => r == Ok::<SessionSummary, OpenFailure>(summary),
            },
            None => r matches Err(OpenFailure::Other(message)) && message@ == no_longer_exists(
                row.id@,
            ),
        },
{
    match found_session(row, found) {
        Ok(summary) => {
            if !is_dir {
                match &summary.working_dir {
                    Some(dir) => {
                        return Err(OpenFailure::MissingDir(dir.clone()));
                    },
                    None => {},
                }
            }
            Ok(summary)
        },
        Err(message) => Err(OpenFailure::Other(message)),
    }
}

/// Where the last message of a session stands among those of all sessions.
pub open spec fn last_index(last: Seq<(String, LastMessage)>, id: Seq<char>) -> Option<int>
    decreases last.len(),
{
    if last.len() == 0 {
        None
    } else {
        match last_index(last.drop_last(), id) {
            Some(i) => Some(i),
            None => if key_of(last.last()) == id {
                Some(last.len() - 1)
            } else {
                None
            },
        }
    }
}

pub open spec fn key_of(entry: (String, LastMessage)) -> Seq<char> {
    let (id, _) = entry;
    id@
}

pub open spec fn message_of(entry: (String, LastMessage)) -> LastMessage {
    let (_, message) = entry;
    message
}

/// What is left of the last messages once the first sessions have taken
/// theirs.
pub open spec fn left_over(
    summaries: Seq<SessionSummary>,
    last: Seq<(String, LastMessage)>,
) -> Seq<(String, LastMessage)>
    decreases summaries.len(),
{
    if summaries.len() == 0 {
        last
    } else {
        let before = left_over(summaries.drop_last(), last);
        match last_index(before, summaries.last().id@) {
            Some(i) => before.remove(i),
            None => before,
        }
    }
}

/// The row of one session, with its own last message out of what is left of
/// them.
pub open spec fn row_with(
    summaries: Seq<SessionSummary>,
    last: Seq<(String, LastMessage)>,
    i: int,
) -> SessionRow {
    let left = left_over(summaries.take(i), last);
    SessionRow {
        last: match last_index(left, summaries[i].id@) {
            Some(k) => Some(message_of(left[k])),
            None => None,
        },
        ..row_of_summary(summaries[i])
    }
}

proof fn lemma_last_index(last: Seq<(String, LastMessage)>, id: Seq<char>, n: int)
    requires
        0 <= n <= last.len(),
        last_index(last.take(n), id) is Some,
    ensures
        last_index(last, id) == last_index(last.take(n), id),
    decreases last.len() - n,
{
    if n == last.len() {
        assert(last.take(n) =~= last);
    } else {
        assert(last.take(n + 1).drop_last() =~= last.take(n));
        lemma_last_index(last, id, n + 1);
    }
}

fn find_last(last: &Vec<(String, LastMessage)>, id: &str) -> (r: Option<usize>)
    ensures
        match r {
            Some(i) => i < last@.len() && last_index(last@, id@) == Some(i as int),
            None => last_index(last@, id@) is None,
        },
{
    let mut i: usize = 0;
    assert(last@.take(0) =~= Seq::empty());
    while i < last.len()
        invariant
            i <= last@.len(),
            last_index(last@.take(i as int), id@) is None,
        decreases last@.len() - i,
    {
        assert(last@.take(i + 1).drop_last() =~= last@.take(i as int));
        let (key, _) = &last[i];
        if same(key, id) {
            proof {
                lemma_last_index(last@, id@, i + 1);
            }
            return Some(i);
        }
        i = i + 1;
    }
    assert(last@.take(i as int) =~= last@);
    None
}

/// The rows of the list: each saved session with the last message it has.
pub fn session_rows(
    summaries: Vec<SessionSummary>,
    last: Vec<(String, LastMessage)>,
) -> (r: Vec<SessionRow>)
    ensures
        r@.len() == summaries@.len(),
        forall|i: int|
            0 <= i < r@.len() ==> #[trigger] r@[i] == row_with(summaries@, last@, i),
{
    let ghost all = summaries@;
    let ghost every = last@;
    let mut rest: Vec<SessionSummary> = summaries;
    let mut left: Vec<(String, LastMessage)> = last;
    let mut out: Vec<SessionRow> = Vec::new();
    assert(all.skip(0) =~= all);
    while rest.len() > 0
        invariant
            out@.len() <= all.len(),
            rest@ == all.skip(out@.len() as int),
            left@ == left_over(all.take(out@.len() as int), every),
            forall|i: int| 0 <= i < out@.len() ==> #[trigger] out@[i] == row_with(all, every, i),
        decreases rest@.len(),
    {
        let ghost n = out@.len() as int;
        let summary: SessionSummary = rest.remove(0);
        assert(summary == all[n]);
        assert(rest@ =~= all.skip(n + 1));
        assert(all.take(n + 1).drop_last() =~= all.take(n));
        assert(all.take(n + 1).last() == summary);
        let mut row: SessionRow = SessionRow::from(summary);
        match find_last(&left, &row.id) {
            Some(i) => {
                let (_, message) = left.remove(i);
                row.last = Some(message);
            },
            None => {},
        }
        assert(row == row_with(all, every, n));
        out.push(row);
    }
    out
}

/// Takes the sessions as they are now into the list, where that is what is
/// shown, and says whether it shows anything else than before.
pub fn refresh_list(screen: Screen, latest: Vec<SessionRow>, cwd: Option<&str>) -> (r: (
    Screen,
    bool,
))
    ensures
        !r.1 ==> r.0 == screen,
        match screen {
            Screen::Launch(before) => {
                let list = listed(
                    rows_here(latest@, str_view(cwd)),
                    rows_elsewhere(latest@, str_view(cwd)),
                );
                &&& r.1 == (crate::tui::picker::list_texts(before.items@)
                    != crate::tui::picker::texts_of(list))
                &&& r.0 matches Screen::Launch(after)
                &&& r.1 ==> entries(after.items@) == list && after.selected == before.follows(
                    after.items@,
                )
            },
            _ => !r.1,
        },
{
    match screen {
        Screen::Launch(picker) => {
            let mut picker: Picker = picker;
            let changed: bool = picker.refresh(latest, cwd);
            (Screen::Launch(picker), changed)
        },
        other => (other, false),
    }
}

/// Every saved text of the model's that shows is shown again, exactly once and
/// as it was, with the model that wrote it, whatever else its message holds.
pub proof fn what_the_model_said_is_shown_again(stored: StoredMessage, text: String)
    requires
        stored.message.role@ == "assistant"@,
        stored.message.content == Some(text),
        exists|i: int| 0 <= i < text@.len() && !is_white(#[trigger] text@[i]),
    ensures
        ({
            let blocks = message_blocks(stored);
            let shown = blocks.last();
            &&& blocks.len() > 0
            &&& shown matches ItemView::Assistant { text: t, streaming, label }
            &&& t == text@
            &&& !streaming
            &&& stored.model is None <==> label is None
            &&& stored.model matches Some(model) ==> label == Some(
                label_text(model@, opt_view(stored.effort_level)),
            )
            &&& forall|i: int|
                0 <= i < blocks.len() - 1 ==> !(#[trigger] blocks[i] is Assistant)
        }),
{
    crate::client::a_text_shows_where_it_holds_ink(stored.message.content);
    reveal_strlit("user");
    reveal_strlit("assistant");
    assert("user"@.len() != "assistant"@.len());
}

/// What a message shows depends on its role, its text, what was thought and
/// what wrote it: the calls that it makes, and what else is kept for the model,
/// change nothing.
pub proof fn calls_do_not_change_what_is_shown(
    stored: StoredMessage,
    other: StoredMessage,
)
    requires
        other.message.role@ == stored.message.role@,
        opt_view(other.message.content) == opt_view(stored.message.content),
        opt_view(other.message.reasoning) == opt_view(stored.message.reasoning),
        opt_view(other.model) == opt_view(stored.model),
        opt_view(other.effort_level) == opt_view(stored.effort_level),
    ensures
        message_blocks(other) == message_blocks(stored),
        message_inputs(other) == message_inputs(stored),
{
    assert(message_blocks(other) =~= message_blocks(stored));
    assert(message_inputs(other) =~= message_inputs(stored));
}

/// What the user said is shown and can be recalled, as it was, blank or not;
/// what is neither the user's nor the model's shows nothing.
pub proof fn what_the_user_said_is_shown_again(stored: StoredMessage)
    ensures
        stored.message.role@ == "user"@ ==> (stored.message.content matches Some(text)
            ==> message_blocks(stored) == seq![ItemView::User(text@)] && message_inputs(stored)
            == seq![text@]),
        stored.message.role@ != "user"@ ==> message_inputs(stored).len() == 0,
        stored.message.role@ != "user"@ && stored.message.role@ != "assistant"@ ==> message_blocks(
            stored,
        ).len() == 0,
        stored.message.content is None ==> message_inputs(stored).len() == 0,
{
}

/// What the model thought stands in front of what it said, where it shows, and
/// nothing else stands there.
pub proof fn what_the_model_thought_stands_in_front(stored: StoredMessage, thought: String)
    requires
        stored.message.role@ == "assistant"@,
        stored.message.reasoning == Some(thought),
        exists|i: int| 0 <= i < thought@.len() && !is_white(#[trigger] thought@[i]),
    ensures
        message_blocks(stored).len() > 0,
        message_blocks(stored)[0] == ItemView::Thinking(thought@),
        message_blocks(stored).len() <= 2,
{
    crate::client::a_text_shows_where_it_holds_ink(stored.message.reasoning);
    reveal_strlit("user");
    reveal_strlit("assistant");
    assert("user"@.len() != "assistant"@.len());
}

/// A saved conversation is shown message by message: what one half shows
/// stands in front of what the other does.
pub proof fn a_conversation_is_shown_in_its_order(
    front: Seq<StoredMessage>,
    back: Seq<StoredMessage>,
    one: StoredMessage,
)
    ensures
        history_blocks(front + back) == history_blocks(front) + history_blocks(back),
        history_inputs(front + back) == history_inputs(front) + history_inputs(back),
        history_blocks(seq![one]) == message_blocks(one),
        history_inputs(seq![one]) == message_inputs(one),
        history_blocks(Seq::empty()).len() == 0,
        history_inputs(Seq::empty()).len() == 0,
    decreases back.len(),
{
    let none = Seq::<StoredMessage>::empty();
    assert(seq![one].drop_last() =~= none);
    assert(history_blocks(none) + message_blocks(one) =~= message_blocks(one));
    assert(history_inputs(none) + message_inputs(one) =~= message_inputs(one));
    if back.len() == 0 {
        assert(front + back =~= front);
        assert(history_blocks(front) + history_blocks(back) =~= history_blocks(front));
        assert(history_inputs(front) + history_inputs(back) =~= history_inputs(front));
    } else {
        a_conversation_is_shown_in_its_order(front, back.drop_last(), one);
        assert((front + back).drop_last() =~= front + back.drop_last());
        assert(history_blocks(front + back) =~= history_blocks(front) + history_blocks(back));
        assert(history_inputs(front + back) =~= history_inputs(front) + history_inputs(back));
    }
}

/// Where a resumed session runs is said, unless that is where it was called,
/// with the directory in it.
pub proof fn where_a_session_runs_is_said(dir: String)
    ensures
        entered_block(EnteredDir::Moved(dir)) == Some(
            ItemView::Notice("Working directory: "@ + dir@),
        ),
        entered_block(EnteredDir::Unchanged) is None,
        entered_block(EnteredDir::Missing(dir)) is Some,
        entered_block(EnteredDir::Missing(dir))->0 is Error,
{
}

/// The last message of a session is found by its id.
pub proof fn a_last_message_is_found_by_its_session(
    last: Seq<(String, LastMessage)>,
    id: Seq<char>,
    i: int,
)
    requires
        0 <= i < last.len(),
        last[i].0@ == id,
        forall|j: int| 0 <= j < i ==> (#[trigger] last[j]).0@ != id,
    ensures
        last_index(last, id) == Some(i),
    decreases last.len(),
{
    let rest = last.drop_last();
    assert forall|j: int| 0 <= j < i implies (#[trigger] rest[j]).0@ != id by {
        assert(rest[j] == last[j]);
    }
    if i < rest.len() {
        assert(rest[i] == last[i]);
        a_last_message_is_found_by_its_session(rest, id, i);
    } else {
        assert forall|j: int| 0 <= j < rest.len() implies (#[trigger] rest[j]).0@ != id by {
            assert(rest[j] == last[j]);
        }
        without_its_session_nothing_is_found(rest, id);
    }
}

proof fn without_its_session_nothing_is_found(last: Seq<(String, LastMessage)>, id: Seq<char>)
    requires
        forall|j: int| 0 <= j < last.len() ==> (#[trigger] last[j]).0@ != id,
    ensures
        last_index(last, id) is None,
    decreases last.len(),
{
    if last.len() > 0 {
        let rest = last.drop_last();
        assert(last[last.len() - 1].0@ != id);
        assert forall|j: int| 0 <= j < rest.len() implies (#[trigger] rest[j]).0@ != id by {
            assert(rest[j] == last[j]);
        }
        without_its_session_nothing_is_found(rest, id);
    }
}

/// The first row of the list has its session's own last message, and every row
/// what is stored of its own session.
pub proof fn a_row_has_its_own_last_message(
    summaries: Seq<SessionSummary>,
    last: Seq<(String, LastMessage)>,
    i: int,
    k: int,
)
    requires
        0 <= i < summaries.len(),
        0 <= k < last.len(),
        last[k].0@ == summaries[0].id@,
        forall|j: int| 0 <= j < k ==> (#[trigger] last[j]).0@ != summaries[0].id@,
    ensures
        row_with(summaries, last, 0).last == Some(last[k].1),
        row_with(summaries, last, i).id == summaries[i].id,
        row_with(summaries, last, i).title == summaries[i].title,
        row_with(summaries, last, i).kind == summaries[i].kind,
        row_with(summaries, last, i).activity == summaries[i].activity,
        row_with(summaries, last, i).working_dir == summaries[i].working_dir,
        row_with(summaries, last, i).updated_at == summaries[i].updated_at,
{
    a_last_message_is_found_by_its_session(last, summaries[0].id@, k);
    assert(summaries.take(0) =~= Seq::<SessionSummary>::empty());
}

/// What was last said in a session, as a list of such messages has it.
pub open spec fn looked_up(last: Seq<(String, LastMessage)>, id: Seq<char>) -> Option<
    LastMessage,
> {
    match last_index(last, id) {
        Some(k) => Some(last[k].1),
        None => None,
    }
}

/// Every row of the list has its own session's last message, whatever sessions
/// stand before it.
pub proof fn each_row_has_its_own_last_message(
    summaries: Seq<SessionSummary>,
    last: Seq<(String, LastMessage)>,
    i: int,
)
    requires
        0 <= i < summaries.len(),
        forall|j: int| 0 <= j < i ==> (#[trigger] summaries[j]).id@ != summaries[i].id@,
    ensures
        row_with(summaries, last, i).last == looked_up(last, summaries[i].id@),
{
    let before = summaries.take(i);
    assert forall|j: int| 0 <= j < before.len() implies (#[trigger] before[j]).id@
        != summaries[i].id@ by {
        assert(before[j] == summaries[j]);
    }
    taking_others_changes_nothing(before, last, summaries[i].id@);
}

proof fn taking_others_changes_nothing(
    summaries: Seq<SessionSummary>,
    last: Seq<(String, LastMessage)>,
    id: Seq<char>,
)
    requires
        forall|j: int| 0 <= j < summaries.len() ==> (#[trigger] summaries[j]).id@ != id,
    ensures
        looked_up(left_over(summaries, last), id) == looked_up(last, id),
    decreases summaries.len(),
{
    if summaries.len() > 0 {
        let rest = summaries.drop_last();
        assert forall|j: int| 0 <= j < rest.len() implies (#[trigger] rest[j]).id@ != id by {
            assert(rest[j] == summaries[j]);
        }
        taking_others_changes_nothing(rest, last, id);
        let before = left_over(rest, last);
        let other = summaries[summaries.len() - 1].id@;
        match last_index(before, other) {
            Some(k) => {
                an_index_is_in_bounds(before, other);
                removing_another_changes_nothing(before, k, id);
            },
            None => {},
        }
    }
}

proof fn an_index_is_in_bounds(last: Seq<(String, LastMessage)>, id: Seq<char>)
    ensures
        last_index(last, id) matches Some(k) ==> 0 <= k < last.len() && last[k].0@ == id
            && forall|j: int| 0 <= j < k ==> (#[trigger] last[j]).0@ != id,
        last_index(last, id) is None ==> forall|j: int|
            0 <= j < last.len() ==> (#[trigger] last[j]).0@ != id,
    decreases last.len(),
{
    if last.len() > 0 {
        let rest = last.drop_last();
        an_index_is_in_bounds(rest, id);
        match last_index(rest, id) {
            Some(k) => {
                assert(last[k] == rest[k]);
                assert forall|j: int| 0 <= j < k implies (#[trigger] last[j]).0@ != id by {
                    assert(last[j] == rest[j]);
                }
            },
            None => {
                assert forall|j: int| 0 <= j < rest.len() implies (#[trigger] last[j]).0@ != id by {
                    assert(last[j] == rest[j]);
                }
            },
        }
    }
}

proof fn removing_another_changes_nothing(
    last: Seq<(String, LastMessage)>,
    k: int,
    id: Seq<char>,
)
    requires
        0 <= k < last.len(),
        last[k].0@ != id,
    ensures
        looked_up(last.remove(k), id) == looked_up(last, id),
{
    let shorter = last.remove(k);
    an_index_is_in_bounds(last, id);
    match last_index(last, id) {
        Some(i) => {
            let at = if i < k {
                i
            } else {
                i - 1
            };
            assert(shorter[at] == last[i]);
            assert forall|j: int| 0 <= j < at implies (#[trigger] shorter[j]).0@ != id by {
                if j < k {
                    assert(shorter[j] == last[j]);
                } else {
                    assert(shorter[j] == last[j + 1]);
                }
            }
            a_last_message_is_found_by_its_session(shorter, id, at);
        },
        None => {
            assert forall|j: int| 0 <= j < shorter.len() implies (#[trigger] shorter[j]).0@ != id by {
                if j < k {
                    assert(shorter[j] == last[j]);
                } else {
                    assert(shorter[j] == last[j + 1]);
                }
            }
            without_its_session_nothing_is_found(shorter, id);
        },
    }
}

/// A session that is gone is named by the start of its id.
pub proof fn a_session_that_is_gone_is_named(id: Seq<char>)
    requires
        vstd::utf8::is_ascii_chars(id),
        id.len() >= 8,
    ensures
        no_longer_exists(id) == "Session "@ + id.take(8) + " no longer exists"@,
{
    crate::offsets::ascii_can_be_cut_anywhere(id, 8);
}

} // verus!
