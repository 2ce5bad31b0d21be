//! The line-based chat: a message typed while a reply is on its way waits,
//! and one that steers takes the reply's place.

use std::collections::VecDeque;
use vstd::prelude::*;
use vstd::string::*;

use crate::client::{is_visible, ChatMessage};
use crate::commands::{done, done_line, one_output, refused, refused_line};
use crate::offsets::{chars_before, cut, cut_bytes, lemma_width_grows, on_boundary};
use crate::session::{PendingRow, PendingSave};
use crate::store::{derive_title, first_user_text, title_of};
use crate::terminal_ui::{
    gap, gap_line, no_output, output_views, push_output, signed, signed_line, Output, OutputView,
};
use crate::text::{
    chars_of, clone_opt, concat2, concat3, decimal, decimal_of, opt_view, same_ignoring_case,
    string_of, strip_prefix, strip_prefix_chars, trim, trim_chars,
};
use crate::tui::rows::{one_span, push_span, span, span_of, span_views, two_spans, Span, Tone};
use crate::ui::{is_word, label_text, response_label};
use crate::wrap::{wrap_to, wrapped};

verus! {

/// What a line is.
#[derive(Debug, Clone, PartialEq, Eq)]
pub enum ParsedInput {
    Empty,
    Exit,
    Steer(String),
    Message(String),
}

/// What a line is, with the characters of its text.
pub enum ParsedView {
    Empty,
    Exit,
    Steer(Seq<char>),
    Message(Seq<char>),
}

impl View for ParsedInput {
    type V = ParsedView;

    open spec fn view(&self) -> ParsedView {
        match self {
            ParsedInput::Empty => ParsedView::Empty,
            ParsedInput::Exit => ParsedView::Exit,
            ParsedInput::Steer(s) => ParsedView::Steer(s@),
            ParsedInput::Message(s) => ParsedView::Message(s@),
        }
    }
}

/// What a line is: blank, the word that ends the chat in any case, a message
/// that steers, or a message, which is taken as it was typed.
pub open spec fn parsed_line(line: Seq<char>) -> ParsedView {
    let t = trim(line);
    if t.len() == 0 {
        ParsedView::Empty
    } else if is_word(t, "exit"@) {
        ParsedView::Exit
    } else {
        match strip_prefix(t, "/steer"@) {
            Some(rest) => if trim(rest).len() == 0 {
                ParsedView::Empty
            } else {
                ParsedView::Steer(trim(rest))
            },
            None => ParsedView::Message(line),
        }
    }
}

/// What a line is.
pub fn parse_input(line: &str) -> (r: ParsedInput)
    ensures
        r@ == parsed_line(line@),
{
    let chars: Vec<char> = chars_of(line);
    let trimmed: &[char] = trim_chars(&chars);
    if trimmed.len() == 0 {
        return ParsedInput::Empty;
    }
    if same_ignoring_case(trimmed, "exit") {
        return ParsedInput::Exit;
    }
    match strip_prefix_chars(trimmed, "/steer") {
        Some(rest) => {
            let text: &[char] = trim_chars(rest);
            if text.len() == 0 {
                ParsedInput::Empty
            } else {
                ParsedInput::Steer(string_of(text))
            }
        },
        None => ParsedInput::Message(String::from_str(line)),
    }
}

/// The state of the chat.
pub struct ChatLoop {
    pub messages: Vec<ChatMessage>,
    pub title_set: bool,
    /// Messages that wait for the reply that is on its way.
    pub queue: VecDeque<String>,
    /// Whether a reply is on its way.
    pub inflight: bool,
}

/// What is to be saved of a message of the user's: its place, and a title for
/// the session where it has none.
#[derive(Debug, Clone, PartialEq, Eq)]
pub struct RecordedTurn {
    pub seq: usize,
    pub title: Option<String>,
}

/// What follows from a line.
#[derive(Debug, Clone, PartialEq, Eq)]
pub enum LineStep {
    Ignore,
    End,
    /// The message waits; so many do now.
    Queued(usize),
    /// The message is saved and a reply is asked for; with `redirect`, the one
    /// that was on its way is dropped first.
    Ask { redirect: bool, recorded: RecordedTurn },
}

/// How asking for a reply went.
pub enum ReplyOutcome {
    Reply(ChatMessage),
    Failed,
}

/// What follows from a reply.
#[derive(Debug, Clone, PartialEq, Eq)]
pub struct ReplyStep {
    /// The text to show and to save, and its place, where it shows.
    pub shown: Option<(String, usize)>,
    /// The next message that waited, for which a reply is asked now.
    pub next: Option<RecordedTurn>,
}

impl ChatLoop {
    /// Whether a record of a user's message is right: the message joined at
    /// its place, and the session got a title if it had none.
    pub open spec fn recorded(self, after: Self, text: Seq<char>, r: RecordedTurn) -> bool {
        &&& after.messages@.len() == self.messages@.len() + 1
        &&& after.messages@.drop_last() == self.messages@
        &&& after.messages@.last().is_plain("user"@, text, None)
        &&& after.title_set
        &&& r.seq == self.messages@.len()
        &&& opt_view(r.title) == if self.title_set {
            None
        } else {
            Some(title_of(first_user_text(after.messages@)))
        }
    }

    fn record_user_turn(&mut self, text: String) -> (r: RecordedTurn)
        ensures
            old(self).recorded(*final(self), text@, r),
            final(self).queue == old(self).queue,
            final(self).inflight == old(self).inflight,
    {
        let seq: usize = self.messages.len();
        let ghost before = self.messages@;
        self.messages.push(ChatMessage::plain("user", text));
        assert(self.messages@.drop_last() =~= before);
        let title: Option<String> = if self.title_set {
            None
        } else {
            Some(derive_title(&self.messages))
        };
        self.title_set = true;
        RecordedTurn { seq, title }
    }

    /// Takes in a line.
    pub fn on_line(&mut self, line: &str) -> (r: LineStep)
        ensures
            match parsed_line(line@) {
                ParsedView::Empty => r == LineStep::Ignore && *final(self) == *old(self),
                ParsedView::Exit => r == LineStep::End && *final(self) == *old(self),
                ParsedView::Steer(text) => {
                    &&& r matches LineStep::Ask { redirect, recorded }
                    &&& redirect == old(self).inflight
                    &&& old(self).recorded(*final(self), text, recorded)
                    &&& final(self).queue == old(self).queue
                    &&& final(self).inflight
                },
                ParsedView::Message(text) => if old(self).inflight {
                    &&& final(self).queue@.len() == old(self).queue@.len() + 1
                    &&& final(self).queue@.drop_last() == old(self).queue@
                    &&& final(self).queue@.last()@ == text
                    &&& *final(self) == (ChatLoop { queue: final(self).queue, ..*old(self) })
                    &&& r == LineStep::Queued((old(self).queue@.len() + 1) as usize)
                } else {
                    &&& r matches LineStep::Ask { redirect, recorded }
                    &&& !redirect
                    &&& old(self).recorded(*final(self), text, recorded)
                    &&& final(self).queue == old(self).queue
                    &&& final(self).inflight
                },
            },
    {
        match parse_input(line) {
            ParsedInput::Empty => LineStep::Ignore,
            ParsedInput::Exit => LineStep::End,
            ParsedInput::Steer(text) => {
                let redirect: bool = self.inflight;
                let recorded: RecordedTurn = self.record_user_turn(text);
                self.inflight = true;
                LineStep::Ask { redirect, recorded }
            },
            ParsedInput::Message(text) => {
                if self.inflight {
                    let ghost before = self.queue@;
                    self.queue.push_back(text);
                    assert(self.queue@.drop_last() =~= before);
                    LineStep::Queued(self.queue.len())
                } else {
                    let recorded: RecordedTurn = self.record_user_turn(text);
                    self.inflight = true;
                    LineStep::Ask { redirect: false, recorded }
                }
            },
        }
    }

    /// The conversation once a reply has joined it: one that shows nothing
    /// does not.
    pub open spec fn with_reply(
        before: Seq<ChatMessage>,
        outcome: ReplyOutcome,
        after: Seq<ChatMessage>,
    ) -> bool {
        match outcome {
            ReplyOutcome::Reply(m) => if is_visible(m.content) {
                &&& after.len() == before.len() + 1
                &&& after.drop_last() == before
                &&& after.last().is_plain("assistant"@, m.content->0@, None)
            } else {
                after == before
            },
            ReplyOutcome::Failed => after == before,
        }
    }

    /// Takes in the reply that was on its way. One that shows something joins
    /// the conversation; then the message that has waited longest is asked.
    pub fn on_reply(&mut self, outcome: ReplyOutcome) -> (r: ReplyStep)
        ensures
            match outcome {
                ReplyOutcome::Reply(m) => if is_visible(m.content) {
                    r.shown == Some((m.content->0, old(self).messages@.len() as usize))
                } else {
                    r.shown is None
                },
                ReplyOutcome::Failed => r.shown is None,
            },
            old(self).queue@.len() == 0 ==> {
                &&& r.next is None
                &&& !final(self).inflight
                &&& final(self).queue == old(self).queue
                &&& final(self).title_set == old(self).title_set
                &&& Self::with_reply(old(self).messages@, outcome, final(self).messages@)
            },
            old(self).queue@.len() > 0 ==> {
                &&& r.next is Some
                &&& final(self).inflight
                &&& final(self).queue@ == old(self).queue@.drop_first()
                &&& Self::with_reply(
                    old(self).messages@,
                    outcome,
                    final(self).messages@.drop_last(),
                )
                &&& final(self).messages@.last().is_plain("user"@, old(self).queue@[0]@, None)
                &&& final(self).title_set
                &&& r.next->0.seq == final(self).messages@.len() - 1
                &&& opt_view(r.next->0.title) == if old(self).title_set {
                    None
                } else {
                    Some(title_of(first_user_text(final(self).messages@)))
                }
            },
    {
        self.inflight = false;
        let mut shown: Option<(String, usize)> = None;
        match outcome {
            ReplyOutcome::Reply(m) => {
                if m.has_visible_content() {
                    match m.content {
                        Some(content) => {
                            let seq: usize = self.messages.len();
                            let ghost before = self.messages@;
                            self.messages.push(ChatMessage::plain("assistant", content.clone()));
                            assert(self.messages@.drop_last() =~= before);
                            shown = Some((content, seq));
                        },
                        None => {},
                    }
                }
            },
            ReplyOutcome::Failed => {},
        }
        if self.queue.len() == 0 {
            return ReplyStep { shown, next: None };
        }
        match self.queue.pop_front() {
            Some(text) => {
                assert(self.queue@ =~= old(self).queue@.drop_first());
                let ghost between = *self;
                assert(text == old(self).queue@[0]);
                assert(Self::with_reply(old(self).messages@, outcome, between.messages@));
                let recorded: RecordedTurn = self.record_user_turn(text);
                self.inflight = true;
                ReplyStep { shown, next: Some(recorded) }
            },
            None => ReplyStep { shown, next: None },
        }
    }
}

/// What is written of a message under the model and effort level that are in
/// force: its row, and then, on its own, the title that the session got with
/// it.
pub fn saves_of(recorded: &RecordedTurn, model: &str, effort_level: &Option<String>) -> (r: Vec<
    PendingSave,
>)
    ensures
        r@.len() == if recorded.title is Some {
            2int
        } else {
            1
        },
        r@[0].rows@.len() == 1,
        r@[0].rows@[0].seq == recorded.seq,
        r@[0].rows@[0].model@ == model@,
        r@[0].rows@[0].effort_level == *effort_level,
        r@[0].title is None,
        recorded.title is Some ==> r@[1].rows@.len() == 0 && r@[1].title == recorded.title,
{
    let mut rows: Vec<PendingRow> = Vec::new();
    rows.push(
        PendingRow {
            seq: recorded.seq,
            model: String::from_str(model),
            effort_level: clone_opt(effort_level),
        },
    );
    let mut saves: Vec<PendingSave> = Vec::new();
    saves.push(PendingSave { rows, title: None });
    match &recorded.title {
        Some(title) => {
            saves.push(PendingSave { rows: Vec::new(), title: Some(title.clone()) });
        },
        None => {},
    }
    saves
}

// ---------------------------------------------------------------------------
// What is printed
// ---------------------------------------------------------------------------

/// What is printed when a chat starts.
pub fn intro_lines() -> (r: Vec<Output>)
    ensures
        output_views(r@) == seq![
            OutputView::Line(
                seq![
                    span_of(
                        "Starting chat session (type 'exit' to quit, prefix a message with '/steer' to interrupt and redirect the current response)"@,
                        Tone::Blue,
                    ),
                ],
            ),
            gap(),
        ],
{
    let mut outputs: Vec<Output> = one_output(
        Output::Line(
            one_span(
                span(
                    "Starting chat session (type 'exit' to quit, prefix a message with '/steer' to interrupt and redirect the current response)",
                    Tone::Blue,
                ),
            ),
        ),
    );
    push_output(&mut outputs, gap_line());
    assert(output_views(outputs@) =~= seq![
        OutputView::Line(
            seq![
                span_of(
                    "Starting chat session (type 'exit' to quit, prefix a message with '/steer' to interrupt and redirect the current response)"@,
                    Tone::Blue,
                ),
            ],
        ),
        gap(),
    ]);
    outputs
}

/// What stands in front of a line that is typed: the model, and whose turn it
/// is.
pub fn prompt(model: &str, effort_level: &Option<String>) -> (r: Vec<Span>)
    ensures
        span_views(r@) == seq![
            span_of(
                "["@ + label_text(model@, opt_view(*effort_level)) + "]"@,
                Tone::DarkGray,
            ),
            span_of(" "@, Tone::Plain),
            span_of("You:"@, Tone::Blue),
            span_of(" "@, Tone::Plain),
        ],
{
    let label: String = concat3("[", &response_label(model, effort_level), "]");
    let mut spans: Vec<Span> = two_spans(
        Span { content: label, tone: Tone::DarkGray },
        span(" ", Tone::Plain),
    );
    push_span(&mut spans, span("You:", Tone::Blue));
    push_span(&mut spans, span(" ", Tone::Plain));
    assert(span_views(spans@) =~= seq![
        span_of("["@ + label_text(model@, opt_view(*effort_level)) + "]"@, Tone::DarkGray),
        span_of(" "@, Tone::Plain),
        span_of("You:"@, Tone::Blue),
        span_of(" "@, Tone::Plain),
    ]);
    spans
}

/// What is printed of what follows from a line.
pub open spec fn line_views(step: LineStep) -> Seq<OutputView> {
    match step {
        LineStep::Ignore => Seq::empty(),
        LineStep::End => seq![done("Chat session ended"@)],
        LineStep::Queued(n) => seq![
            signed(
                "\u{2026}"@,
                Tone::DarkGray,
                "message queued ("@ + decimal(n as nat) + " pending)"@,
            ),
        ],
        LineStep::Ask { redirect, .. } => if redirect {
            seq![
                signed(
                    "\u{2937}"@,
                    Tone::Yellow,
                    "steering \u{2014} redirecting the current response"@,
                ),
            ]
        } else {
            Seq::empty()
        },
    }
}

/// What is printed of what follows from a line.
pub fn line_outputs(step: &LineStep) -> (r: Vec<Output>)
    ensures
        output_views(r@) == line_views(*step),
{
    match step {
        LineStep::Ignore => no_output(),
        LineStep::End => one_output(done_line("Chat session ended")),
        LineStep::Queued(n) => one_output(
            signed_line(
                "\u{2026}",
                Tone::DarkGray,
                &concat3("message queued (", &decimal_of(*n as u64), " pending)"),
            ),
        ),
        LineStep::Ask { redirect, .. } => if *redirect {
            one_output(
                signed_line(
                    "\u{2937}",
                    Tone::Yellow,
                    "steering \u{2014} redirecting the current response",
                ),
            )
        } else {
            no_output()
        },
    }
}

/// What is printed of a reply that shows something, at a given width.
pub fn reply_outputs(
    model: &str,
    effort_level: &Option<String>,
    step: &ReplyStep,
    width: usize,
) -> (r: Vec<Output>)
    ensures
        output_views(r@) == match step.shown {
            Some((text, _)) => seq![
                gap(),
                signed(
                    label_text(model@, opt_view(*effort_level)) + ":"@,
                    Tone::Cyan,
                    wrapped(text@, width, "\n"@),
                ),
                gap(),
            ],
            None => Seq::<OutputView>::empty(),
        },
{
    match &step.shown {
        Some((text, _)) => {
            let label: String = concat2(&response_label(model, effort_level), ":");
            let body: String = wrap_to(text, width);
            let mut outputs: Vec<Output> = one_output(gap_line());
            push_output(&mut outputs, signed_line(&label, Tone::Cyan, &body));
            push_output(&mut outputs, gap_line());
            assert(output_views(outputs@) =~= seq![
                gap(),
                signed(
                    label_text(model@, opt_view(*effort_level)) + ":"@,
                    Tone::Cyan,
                    wrapped(text@, width, "\n"@),
                ),
                gap(),
            ]);
            outputs
        },
        None => no_output(),
    }
}

/// What is printed of a request that failed; one that was dropped on purpose
/// is not mentioned.
pub fn failure_outputs(error: Option<&str>) -> (r: Vec<Output>)
    ensures
        output_views(r@) == match error {
            Some(e) => seq![refused(e@), gap()],
            None => Seq::<OutputView>::empty(),
        },
{
    match error {
        Some(e) => {
            let mut outputs: Vec<Output> = one_output(refused_line(e));
            push_output(&mut outputs, gap_line());
            assert(output_views(outputs@) =~= seq![refused(e@), gap()]);
            outputs
        },
        None => no_output(),
    }
}

/// What is printed where a message, or the title, could not be written.
pub fn save_failure(save: &PendingSave, error: &str) -> (r: Output)
    ensures
        r@ == refused(
            if save.title is Some {
                "Failed to save session title: "@
            } else {
                "Failed to save message: "@
            } + error@,
        ),
{
    if save.title.is_some() {
        refused_line(&concat2("Failed to save session title: ", error))
    } else {
        refused_line(&concat2("Failed to save message: ", error))
    }
}

/// What is printed when a chat ends.
pub fn outro_line(session_id: &str) -> (r: Output)
    requires
        on_boundary(session_id@, 8),
    ensures
        r@ == done("Session saved. Resume with: comms chat --resume "@ + cut(session_id@, 8)),
{
    proof {
        let k = chars_before(session_id@, 8);
        lemma_width_grows(session_id@, k, session_id@.len() as int);
        assert(session_id@.take(session_id@.len() as int) =~= session_id@);
    }
    done_line(
        &concat2("Session saved. Resume with: comms chat --resume ", cut_bytes(session_id, 8)),
    )
}

/// What steers is what stands behind the command, and the command alone, like a
/// blank line, is nothing.
pub proof fn what_steers_stands_behind_the_command(text: Seq<char>, blank: Seq<char>)
    requires
        text.len() > 0,
        trim(text) == text,
        forall|i: int| 0 <= i < blank.len() ==> crate::text::is_white(#[trigger] blank[i]),
    ensures
        parsed_line("/steer "@ + text) == ParsedView::Steer(text),
        parsed_line("/steer"@) == ParsedView::Empty,
        parsed_line(blank) == ParsedView::Empty,
{
    reveal_strlit("/steer ");
    reveal_strlit("/steer");
    reveal_strlit(" ");
    reveal_strlit("exit");
    assert("/steer"@ + " "@ + text =~= "/steer "@ + text);
    crate::text::an_argument_stands_behind_its_name("/steer"@, text);
    let t = "/steer "@ + text;
    assert(crate::text::ascii_lowercase(t).len() != crate::text::ascii_lowercase("exit"@).len());
    let bare = "/steer"@;
    assert(trim(bare) == bare);
    assert(crate::text::ascii_lowercase(bare).len() != crate::text::ascii_lowercase(
        "exit"@,
    ).len());
    assert(bare.take(6) =~= bare);
    assert(bare.skip(6).len() == 0);
    crate::text::only_white_space_trims_to_nothing(bare.skip(6));
    crate::text::only_white_space_trims_to_nothing(blank);
}

/// Anything else is a message, as it was typed, spaces included; the word that
/// leaves does so in any case and alone.
pub proof fn anything_else_is_a_message(line: Seq<char>)
    requires
        trim(line).len() > 0,
        trim(line)[0] != '/',
    ensures
        crate::text::ascii_lowercase(trim(line)) == "exit"@ <==> parsed_line(line)
            == ParsedView::Exit,
        crate::text::ascii_lowercase(trim(line)) != "exit"@ <==> parsed_line(line)
            == ParsedView::Message(line),
{
    reveal_strlit("exit");
    reveal_strlit("/steer");
    assert(crate::text::ascii_lowercase("exit"@) =~= "exit"@);
    crate::text::a_different_start_is_no_prefix(trim(line), "/steer"@, 0);
}

/// A reply joins the conversation where it shows anything, as it was written;
/// one that does not, and one that failed, leave it as it was.
pub proof fn a_reply_joins_where_it_shows(
    before: Seq<ChatMessage>,
    outcome: ReplyOutcome,
    after: Seq<ChatMessage>,
)
    requires
        ChatLoop::with_reply(before, outcome, after),
    ensures
        outcome is Failed ==> after == before,
        outcome matches ReplyOutcome::Reply(m) ==> (!is_visible(m.content) ==> after == before),
        outcome matches ReplyOutcome::Reply(m) ==> (is_visible(m.content) ==> after.len()
            == before.len() + 1 && after.last().role@ == "assistant"@ && opt_view(
            after.last().content,
        ) == opt_view(m.content) && forall|i: int|
            0 <= i < before.len() ==> #[trigger] after[i] == before[i]),
{
    if after.len() == before.len() + 1 && after.drop_last() == before {
        assert forall|i: int| 0 <= i < before.len() implies #[trigger] after[i] == before[i] by {
            assert(after.drop_last()[i] == before[i]);
        }
    }
}

/// What a line leads to is said: that the chat ends, how many messages wait, or
/// that the reply on its way is redirected; a message that is asked at once says
/// nothing.
pub proof fn what_a_line_leads_to_is_said(n: usize, recorded: RecordedTurn)
    ensures
        line_views(LineStep::Ignore).len() == 0,
        line_views(LineStep::End).len() == 1,
        crate::terminal_ui::printed(line_views(LineStep::End)[0]) == "\u{2713}"@ + " "@
            + "Chat session ended"@,
        line_views(LineStep::Queued(n)).len() == 1,
        crate::terminal_ui::printed(line_views(LineStep::Queued(n))[0]) == "\u{2026}"@ + " "@ + (
        "message queued ("@ + decimal(n as nat) + " pending)"@),
        line_views(LineStep::Ask { redirect: false, recorded }).len() == 0,
        line_views(LineStep::Ask { redirect: true, recorded }).len() == 1,
{
    crate::terminal_ui::a_signed_line_shows_its_text(
        "\u{2713}"@,
        Tone::Green,
        "Chat session ended"@,
    );
    crate::terminal_ui::a_signed_line_shows_its_text(
        "\u{2026}"@,
        Tone::DarkGray,
        "message queued ("@ + decimal(n as nat) + " pending)"@,
    );
}

/// A message of the user's joins the conversation at its end, as it was typed,
/// and names a session that has no name yet.
pub proof fn a_message_joins_at_the_end(
    before: ChatLoop,
    after: ChatLoop,
    text: Seq<char>,
    r: RecordedTurn,
)
    requires
        before.recorded(after, text, r),
    ensures
        after.messages@.len() == before.messages@.len() + 1,
        after.messages@.last().role@ == "user"@,
        opt_view(after.messages@.last().content) == Some(text),
        r.seq == before.messages@.len(),
        after.title_set,
        before.title_set ==> r.title is None,
        !before.title_set ==> r.title is Some,
        !before.title_set && before.messages@.len() == 0 ==> r.title->0@ == title_of(text),
        forall|i: int|
            0 <= i < before.messages@.len() ==> #[trigger] after.messages@[i]
                == before.messages@[i],
{
    assert forall|i: int| 0 <= i < before.messages@.len() implies #[trigger] after.messages@[i]
        == before.messages@[i] by {
        assert(after.messages@.drop_last()[i] == before.messages@[i]);
    }
    if before.messages@.len() == 0 {
        crate::store::the_first_message_of_the_user_counts(after.messages@, 0);
    }
}

/// A line that was read holds what was typed.
pub proof fn a_read_line_holds_what_was_typed(text: String)
    ensures
        ParsedInput::Message(text)@ == ParsedView::Message(text@),
        ParsedInput::Steer(text)@ == ParsedView::Steer(text@),
        ParsedInput::Empty@ == ParsedView::Empty,
        ParsedInput::Exit@ == ParsedView::Exit,
{
}

} // verus!
