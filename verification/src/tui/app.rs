//! The state of the conversation screen, and how what happens changes it.

use vstd::prelude::*;
use vstd::string::*;

use crate::config::{ApprovalSettings, Temperature};
use crate::conversation::Event;
use crate::offsets::{
    a_cursor_has_one_place, byte_width, char_index, char_width, chars_before, lemma_caret_in_bounds,
    lemma_width_grows, lemma_width_of_sum, on_boundary, short_id_of, shown_id, total_width,
    width_of,
};
use crate::text::{
    chars_of, opt_view, same, starts_white, starts_with_whitespace, string_of, strip_prefix,
    strip_prefix_chars, trim, trim_chars,
};
use crate::ui::{
    label_text, notice_text, pair_views, response_label, sandbox_notice, sandbox_state_text,
    AgentEvent, ApprovalRequest,
};

verus! {

/// One block of the conversation as it is shown.
#[derive(Debug, Clone, PartialEq, Eq)]
pub enum TranscriptItem {
    User(String),
    Assistant {
        text: String,
        /// Whether the reply is still streaming in.
        streaming: bool,
        /// What produced the block, fixed when it was made; `None` where that
        /// was not recorded.
        label: Option<String>,
    },
    ToolCall { name: String, arguments: String, status: ToolStatus },
    Error(String),
    Notice(String),
    /// What the model thought.
    Thinking(String),
    SessionStatus(Vec<(String, String)>),
    ApprovalStatus { approval: ApprovalSettings, changed: bool },
    /// A command that the user ran, and whether its output goes with the next
    /// message.
    Shell { command: String, output: String, exit_code: i32, sent: bool },
}

/// How far a tool call has come.
#[derive(Debug, Clone, PartialEq, Eq)]
pub enum ToolStatus {
    AwaitingApproval,
    Running,
    Denied,
    Done { result: String },
}

/// What the keys do.
#[derive(Debug, Clone, Copy, PartialEq, Eq, Structural)]
pub enum Focus {
    /// They type.
    Input,
    /// They answer a question about a tool call.
    Approval,
}

/// A command of the user's that is running or waits for a decision.
#[derive(Debug, Clone, PartialEq, Eq)]
pub enum ShellState {
    Running { command: String },
    Finished { command: String, output: String, exit_code: i32 },
}

pub enum StatusView {
    AwaitingApproval,
    Running,
    Denied,
    Done { result: Seq<char> },
}

pub enum ItemView {
    User(Seq<char>),
    Assistant { text: Seq<char>, streaming: bool, label: Option<Seq<char>> },
    ToolCall { name: Seq<char>, arguments: Seq<char>, status: StatusView },
    Error(Seq<char>),
    Notice(Seq<char>),
    Thinking(Seq<char>),
    SessionStatus(Seq<(Seq<char>, Seq<char>)>),
    ApprovalStatus { approval: ApprovalSettings, changed: bool },
    Shell { command: Seq<char>, output: Seq<char>, exit_code: i32, sent: bool },
}

impl View for ToolStatus {
    type V = StatusView;

    open spec fn view(&self) -> StatusView {
        match self {
            ToolStatus::AwaitingApproval => StatusView::AwaitingApproval,
            ToolStatus::Running => StatusView::Running,
            ToolStatus::Denied => StatusView::Denied,
            ToolStatus::Done { result } => StatusView::Done { result: result@ },
        }
    }
}

impl View for TranscriptItem {
    type V = ItemView;

    open spec fn view(&self) -> ItemView {
        match self {
            TranscriptItem::User(s) => ItemView::User(s@),
            TranscriptItem::Assistant { text, streaming, label } => ItemView::Assistant {
                text: text@,
                streaming: *streaming,
                label: opt_view(*label),
            },
            TranscriptItem::ToolCall { name, arguments, status } => ItemView::ToolCall {
                name: name@,
                arguments: arguments@,
                status: status@,
            },
            TranscriptItem::Error(s) => ItemView::Error(s@),
            TranscriptItem::Notice(s) => ItemView::Notice(s@),
            TranscriptItem::Thinking(s) => ItemView::Thinking(s@),
            TranscriptItem::SessionStatus(rows) => ItemView::SessionStatus(pair_views(rows@)),
            TranscriptItem::ApprovalStatus { approval, changed } => ItemView::ApprovalStatus {
                approval: *approval,
                changed: *changed,
            },
            TranscriptItem::Shell { command, output, exit_code, sent } => ItemView::Shell {
                command: command@,
                output: output@,
                exit_code: *exit_code,
                sent: *sent,
            },
        }
    }
}

/// The blocks with the characters of their texts.
pub open spec fn item_views(items: Seq<TranscriptItem>) -> Seq<ItemView> {
    items.map_values(|i: TranscriptItem| i@)
}

/// What a submitted line turned out to be, where only the model can be set.
#[derive(Debug, Clone, PartialEq, Eq)]
pub enum Submission {
    Message(String),
    SetModel(String),
    ShowModel,
}

pub enum SubmissionView {
    Message(Seq<char>),
    SetModel(Seq<char>),
    ShowModel,
}

impl View for Submission {
    type V = SubmissionView;

    open spec fn view(&self) -> SubmissionView {
        match self {
            Submission::Message(s) => SubmissionView::Message(s@),
            Submission::SetModel(s) => SubmissionView::SetModel(s@),
            Submission::ShowModel => SubmissionView::ShowModel,
        }
    }
}

/// What a line is: the model's name is set or shown, and everything else is a
/// message, whatever it starts with.
pub open spec fn reading(text: Seq<char>) -> SubmissionView {
    match strip_prefix(trim(text), "/model"@) {
        Some(rest) => if rest.len() == 0 {
            SubmissionView::ShowModel
        } else if starts_white(rest) {
            if trim(rest).len() == 0 {
                SubmissionView::ShowModel
            } else {
                SubmissionView::SetModel(trim(rest))
            }
        } else {
            SubmissionView::Message(text)
        },
        None => SubmissionView::Message(text),
    }
}

/// Tells the model command from a message.
pub fn classify(text: &str) -> (r: Submission)
    ensures
        r@ == reading(text@),
{
    let chars: Vec<char> = chars_of(text);
    let trimmed: &[char] = trim_chars(&chars);
    match strip_prefix_chars(trimmed, "/model") {
        Some(rest) => {
            if rest.len() == 0 {
                return Submission::ShowModel;
            }
            if starts_with_whitespace(rest) {
                let name: &[char] = trim_chars(rest);
                return if name.len() == 0 {
                    Submission::ShowModel
                } else {
                    Submission::SetModel(string_of(name))
                };
            }
            Submission::Message(String::from_str(text))
        },
        None => Submission::Message(String::from_str(text)),
    }
}

/// The state of the conversation screen.
#[derive(Debug)]
pub struct App {
    pub transcript: Vec<TranscriptItem>,
    pub input: String,
    /// The byte index of the cursor in the input, between two characters.
    pub cursor: usize,
    pub focus: Focus,
    pub busy: bool,
    /// How many messages wait.
    pub queued: usize,
    pub pending_approval: Option<ApprovalRequest>,
    /// Lines scrolled up from the newest; 0 follows it.
    pub scroll_back: u16,
    /// The model that the next turn uses.
    pub model: String,
    pub effort_level: Option<String>,
    /// The whole id, from which the session's mark is made.
    pub session_id: String,
    /// Whether the conversation has tools.
    pub agentic: bool,
    pub verbose: bool,
    pub highlight: bool,
    pub max_iterations: Option<usize>,
    pub temperature: Option<Temperature>,
    pub approval: ApprovalSettings,
    pub sandbox: bool,
    pub stream: bool,
    pub working_dir: Option<String>,
    pub title: String,
    /// What was submitted, for the arrow keys to recall.
    pub input_history: Vec<String>,
    /// Which of it is in the input box.
    pub recalled: Option<usize>,
    /// The messages that wait, in the order they will be taken.
    pub pending: Vec<String>,
    pub pending_shell: Option<ShellState>,
}

/// Whether the last block is a reply that is still streaming in.
pub open spec fn streams(t: Seq<ItemView>) -> bool {
    t.len() > 0 && (t.last() matches ItemView::Assistant { streaming, .. } && streaming)
}

/// The blocks once the last one, if it is a reply, is complete.
pub open spec fn settled(t: Seq<ItemView>) -> Seq<ItemView> {
    if t.len() > 0 {
        match t.last() {
            ItemView::Assistant { text, label, .. } => t.drop_last().push(
                ItemView::Assistant { text, streaming: false, label },
            ),
            _ => t,
        }
    } else {
        t
    }
}

/// A block once it is complete: a reply no longer streams in.
pub open spec fn complete(item: ItemView) -> ItemView {
    match item {
        ItemView::Assistant { text, label, .. } => ItemView::Assistant {
            text,
            streaming: false,
            label,
        },
        _ => item,
    }
}

/// The blocks once every one of them is complete.
pub open spec fn all_settled(t: Seq<ItemView>) -> Seq<ItemView> {
    t.map_values(|item: ItemView| complete(item))
}

/// Whether a block is a reply that is still streaming in.
pub open spec fn is_streaming(item: ItemView) -> bool {
    item matches ItemView::Assistant { streaming, .. } && streaming
}

/// The blocks once more of a reply has come in: it joins the reply that is
/// streaming, or starts one.
pub open spec fn with_text(t: Seq<ItemView>, text: Seq<char>, label: Seq<char>) -> Seq<ItemView> {
    if streams(t) {
        match t.last() {
            ItemView::Assistant { text: before, label: l, .. } => t.drop_last().push(
                ItemView::Assistant { text: before + text, streaming: true, label: l },
            ),
            _ => t,
        }
    } else {
        t.push(ItemView::Assistant { text, streaming: true, label: Some(label) })
    }
}

/// The blocks once the whole reply is there: it takes the place of what has
/// streamed in, or stands on its own.
pub open spec fn with_message(
    t: Seq<ItemView>,
    text: Seq<char>,
    label: Seq<char>,
) -> Seq<ItemView> {
    if streams(t) {
        match t.last() {
            ItemView::Assistant { label: l, .. } => t.drop_last().push(
                ItemView::Assistant { text, streaming: false, label: l },
            ),
            _ => t,
        }
    } else {
        t.push(ItemView::Assistant { text, streaming: false, label: Some(label) })
    }
}

/// Whether a call's status can still change.
pub open spec fn is_open(status: StatusView) -> bool {
    !(status is Done || status is Denied)
}

/// The blocks once the last call that was still open has a new status.
pub open spec fn with_status(t: Seq<ItemView>, status: StatusView) -> Seq<ItemView>
    decreases t.len(),
{
    if t.len() == 0 {
        t
    } else {
        match t.last() {
            ItemView::ToolCall { name, arguments, status: s } => if is_open(s) {
                t.drop_last().push(ItemView::ToolCall { name, arguments, status })
            } else {
                with_status(t.drop_last(), status).push(t.last())
            },
            _ => with_status(t.drop_last(), status).push(t.last()),
        }
    }
}

/// The blocks once the last call, if it was still open, is denied.
pub open spec fn with_last_denied(t: Seq<ItemView>) -> Seq<ItemView>
    decreases t.len(),
{
    if t.len() == 0 {
        t
    } else {
        match t.last() {
            ItemView::ToolCall { name, arguments, status } => if is_open(status) {
                t.drop_last().push(
                    ItemView::ToolCall { name, arguments, status: StatusView::Denied },
                )
            } else {
                t
            },
            _ => with_last_denied(t.drop_last()).push(t.last()),
        }
    }
}

impl App {
    pub open spec fn blocks(self) -> Seq<ItemView> {
        item_views(self.transcript@)
    }

    /// The cursor stands between two characters.
    pub open spec fn wf(self) -> bool {
        on_boundary(self.input@, self.cursor as nat)
    }

    /// Where the cursor is, in characters.
    pub open spec fn caret(self) -> int {
        chars_before(self.input@, self.cursor as nat)
    }

    /// The label of a reply that comes in now.
    pub open spec fn label_view(self) -> Seq<char> {
        label_text(self.model@, opt_view(self.effort_level))
    }

    /// A screen for a session, with nothing on it.
    pub fn new(model: String, effort_level: Option<String>, session_id: String) -> (r: Self)
        ensures
            r.wf(),
            r.transcript@.len() == 0,
            r.input@.len() == 0,
            r.cursor == 0,
            r.focus == Focus::Input,
            !r.busy,
            r.queued == 0,
            r.pending_approval is None,
            r.scroll_back == 0,
            r.model == model,
            r.effort_level == effort_level,
            r.session_id == session_id,
            !r.agentic,
            !r.verbose,
            r.highlight,
            r.max_iterations is None,
            r.temperature is None,
            r.approval == (ApprovalSettings { read_disk: true, write_disk: true, terminal: true }),
            r.sandbox,
            r.stream,
            r.working_dir is None,
            r.title@.len() == 0,
            r.input_history@.len() == 0,
            r.recalled is None,
            r.pending@.len() == 0,
            r.pending_shell is None,
    {
        let input: String = String::new();
        proof {
            assert(input@.take(0) =~= Seq::<char>::empty());
            a_cursor_has_one_place(input@, 0, 0);
        }
        App {
            transcript: Vec::new(),
            input,
            cursor: 0,
            focus: Focus::Input,
            busy: false,
            queued: 0,
            pending_approval: None,
            scroll_back: 0,
            model,
            effort_level,
            session_id,
            agentic: false,
            verbose: false,
            highlight: true,
            max_iterations: None,
            temperature: None,
            approval: ApprovalSettings { read_disk: true, write_disk: true, terminal: true },
            sandbox: true,
            stream: true,
            working_dir: None,
            title: String::new(),
            input_history: Vec::new(),
            recalled: None,
            pending: Vec::new(),
            pending_shell: None,
        }
    }

    /// How the current model is shown.
    pub fn label(&self) -> (r: String)
        ensures
            r@ == self.label_view(),
    {
        response_label(&self.model, &self.effort_level)
    }

    /// How the session's id is shown.
    pub fn short_id(&self) -> (r: &str)
        ensures
            r@ == shown_id(self.session_id@),
    {
        short_id_of(&self.session_id)
    }

    /// Whether the newest content is followed.
    pub fn is_pinned_to_bottom(&self) -> (r: bool)
        ensures
            r == (self.scroll_back == 0),
    {
        self.scroll_back == 0
    }

    pub(crate) fn push_item(&mut self, item: TranscriptItem)
        ensures
            final(self).blocks() == old(self).blocks().push(item@),
            *final(self) == (App { transcript: final(self).transcript, ..*old(self) }),
    {
        let ghost before = self.blocks();
        self.transcript.push(item);
        assert(self.blocks() =~= before.push(item@));
    }

    fn finish_streaming(&mut self)
        ensures
            final(self).blocks() == settled(old(self).blocks()),
            *final(self) == (App { transcript: final(self).transcript, ..*old(self) }),
    {
        let ghost before = self.blocks();
        let ghost items = self.transcript@;
        match self.transcript.pop() {
            Some(item) => {
                assert(self.blocks() =~= before.drop_last());
                assert(before.last() == item@);
                match item {
                    TranscriptItem::Assistant { text, label, .. } => {
                        self.push_item(TranscriptItem::Assistant { text, streaming: false, label });
                    },
                    other => {
                        self.push_item(other);
                        assert(before.drop_last().push(before.last()) =~= before);
                    },
                }
            },
            None => {},
        }
    }

    fn push_delta(&mut self, text: &str)
        ensures
            final(self).blocks() == with_text(old(self).blocks(), text@, old(self).label_view()),
            *final(self) == (App { transcript: final(self).transcript, ..*old(self) }),
    {
        let ghost before = self.blocks();
        match self.transcript.pop() {
            Some(item) => {
                assert(self.blocks() =~= before.drop_last());
                assert(before.last() == item@);
                match item {
                    TranscriptItem::Assistant { text: existing, streaming: true, label } => {
                        let mut existing: String = existing;
                        existing.append(text);
                        self.push_item(
                            TranscriptItem::Assistant { text: existing, streaming: true, label },
                        );
                        return;
                    },
                    other => {
                        self.push_item(other);
                        assert(before.drop_last().push(before.last()) =~= before);
                    },
                }
            },
            None => {},
        }
        let label: String = self.label();
        self.push_item(
            TranscriptItem::Assistant {
                text: String::from_str(text),
                streaming: true,
                label: Some(label),
            },
        );
    }

    fn push_message(&mut self, model: String, effort_level: Option<String>, text: String)
        ensures
            final(self).blocks() == with_message(
                old(self).blocks(),
                text@,
                label_text(model@, opt_view(effort_level)),
            ),
            *final(self) == (App { transcript: final(self).transcript, ..*old(self) }),
    {
        let ghost before = self.blocks();
        match self.transcript.pop() {
            Some(item) => {
                assert(self.blocks() =~= before.drop_last());
                assert(before.last() == item@);
                match item {
                    TranscriptItem::Assistant { text: _, streaming: true, label } => {
                        self.push_item(TranscriptItem::Assistant { text, streaming: false, label });
                        return;
                    },
                    other => {
                        self.push_item(other);
                        assert(before.drop_last().push(before.last()) =~= before);
                    },
                }
            },
            None => {},
        }
        let label: String = response_label(&model, &effort_level);
        self.push_item(TranscriptItem::Assistant { text, streaming: false, label: Some(label) });
    }

    fn set_last_tool_status(&mut self, status: ToolStatus)
        ensures
            final(self).blocks() == with_status(old(self).blocks(), status@),
            *final(self) == (App { transcript: final(self).transcript, ..*old(self) }),
    {
        let mut i: usize = self.transcript.len();
        let ghost all = self.blocks();
        assert(all.take(i as int) == all);
        assert(with_status(all.take(i as int), status@) + all.skip(i as int) =~= with_status(
            all,
            status@,
        ));
        while i > 0
            invariant
                i <= self.transcript@.len(),
                all == self.blocks(),
                *self == *old(self),
                with_status(all.take(i as int), status@) + all.skip(i as int) == with_status(
                    all,
                    status@,
                ),
            decreases i,
        {
            i = i - 1;
            let ghost head = all.take(i + 1);
            assert(head.drop_last() =~= all.take(i as int));
            assert(head.last() == self.transcript@[i as int]@);
            let open: bool = match &self.transcript[i] {
                TranscriptItem::ToolCall { status: s, .. } => match s {
                    ToolStatus::Done { .. } | ToolStatus::Denied => false,
                    _ => true,
                },
                _ => false,
            };
            if open {
                let item: TranscriptItem = self.transcript.remove(i);
                match item {
                    TranscriptItem::ToolCall { name, arguments, .. } => {
                        self.transcript.insert(
                            i,
                            TranscriptItem::ToolCall { name, arguments, status },
                        );
                    },
                    other => {
                        self.transcript.insert(i, other);
                    },
                }
                assert(self.blocks() =~= with_status(head, status@) + all.skip(i + 1));
                return;
            }
            assert(with_status(all.take(i as int), status@) + all.skip(i as int) =~= with_status(
                head,
                status@,
            ) + all.skip(i + 1));
        }
        assert(all.take(0) =~= Seq::<ItemView>::empty());
        assert(with_status(all.take(0), status@) =~= Seq::<ItemView>::empty());
        assert(with_status(all.take(0), status@) + all.skip(0) =~= all);
    }

    /// Marks every reply complete, also one that other blocks have come behind.
    fn settle_all(&mut self)
        ensures
            final(self).blocks() == all_settled(old(self).blocks()),
            *final(self) == (App { transcript: final(self).transcript, ..*old(self) }),
    {
        let ghost all = self.blocks();
        let count: usize = self.transcript.len();
        let mut i: usize = 0;
        assert(self.blocks() =~= all_settled(all.take(0)) + all.skip(0));
        while i < count
            invariant
                i <= count,
                count == self.transcript@.len(),
                count == all.len(),
                self.blocks() == all_settled(all.take(i as int)) + all.skip(i as int),
                *self == (App { transcript: self.transcript, ..*old(self) }),
            decreases count - i,
        {
            let ghost before = self.blocks();
            let item: TranscriptItem = self.transcript.remove(i);
            let settled_item: TranscriptItem = match item {
                TranscriptItem::Assistant { text, label, .. } => TranscriptItem::Assistant {
                    text,
                    streaming: false,
                    label,
                },
                other => other,
            };
            assert(item@ == before[i as int]);
            assert(settled_item@ == complete(all[i as int]));
            self.transcript.insert(i, settled_item);
            assert(self.blocks() =~= all_settled(all.take(i + 1)) + all.skip(i + 1)) by {
                assert forall|k: int| 0 <= k < count implies #[trigger] self.blocks()[k] == (
                all_settled(all.take(i + 1)) + all.skip(i + 1))[k] by {
                    if k != i {
                        assert(self.blocks()[k] == before[k]);
                    }
                }
            }
            i = i + 1;
        }
        assert(all.take(count as int) =~= all);
        assert(all_settled(all) + all.skip(count as int) =~= all_settled(all));
    }

    fn deny_last_tool(&mut self)
        ensures
            final(self).blocks() == with_last_denied(old(self).blocks()),
            *final(self) == (App { transcript: final(self).transcript, ..*old(self) }),
    {
        let mut i: usize = self.transcript.len();
        let ghost all = self.blocks();
        assert(all.take(i as int) == all);
        assert(with_last_denied(all.take(i as int)) + all.skip(i as int) =~= with_last_denied(all));
        while i > 0
            invariant
                i <= self.transcript@.len(),
                all == self.blocks(),
                *self == *old(self),
                with_last_denied(all.take(i as int)) + all.skip(i as int) == with_last_denied(all),
            decreases i,
        {
            i = i - 1;
            let ghost head = all.take(i + 1);
            assert(head.drop_last() =~= all.take(i as int));
            assert(head.last() == self.transcript@[i as int]@);
            let is_call: bool = match &self.transcript[i] {
                TranscriptItem::ToolCall { .. } => true,
                _ => false,
            };
            if is_call {
                let item: TranscriptItem = self.transcript.remove(i);
                match item {
                    TranscriptItem::ToolCall { name, arguments, status } => {
                        let settled_status: ToolStatus = match status {
                            ToolStatus::AwaitingApproval | ToolStatus::Running =>
                                ToolStatus::Denied,
                            other => other,
                        };
                        self.transcript.insert(
                            i,
                            TranscriptItem::ToolCall { name, arguments, status: settled_status },
                        );
                    },
                    other => {
                        self.transcript.insert(i, other);
                    },
                }
                assert(self.blocks() =~= with_last_denied(head) + all.skip(i + 1));
                return;
            }
            assert(with_last_denied(all.take(i as int)) + all.skip(i as int) =~= with_last_denied(
                head,
            ) + all.skip(i + 1));
        }
        assert(all.take(0) =~= Seq::<ItemView>::empty());
        assert(with_last_denied(all.take(0)) + all.skip(0) =~= all);
    }

    /// Takes in what the worker reports.
    pub fn apply(&mut self, event: Event)
        ensures
            final(self).input == old(self).input,
            final(self).cursor == old(self).cursor,
            final(self).scroll_back == old(self).scroll_back,
            final(self).session_id == old(self).session_id,
            final(self).input_history == old(self).input_history,
            reflects(*old(self), *final(self), event),
    {
        match event {
            Event::UserMessage(text) => self.push_item(TranscriptItem::User(text)),
            Event::Busy(busy) => {
                self.busy = busy;
                if !busy {
                    self.settle_all();
                }
            },
            Event::Queued { pending } => {
                self.queued = pending;
            },
            Event::Cancelled => self.cancel(),
            Event::ApprovalRequested(request) => {
                self.set_last_tool_status(ToolStatus::AwaitingApproval);
                self.pending_approval = Some(request);
                self.focus = Focus::Approval;
            },
            Event::Agent(e) => self.apply_agent(e),
            Event::ModelChanged { model, effort_level } => self.apply_model(model, effort_level),
            Event::SandboxChanged { sandbox } => {
                let text: String = sandbox_notice(sandbox, sandbox != self.sandbox);
                self.sandbox = sandbox;
                self.push_item(TranscriptItem::Notice(text));
            },
            Event::ApprovalSettingsChanged { approval } => {
                let changed: bool = approval != self.approval;
                self.approval = approval;
                self.push_item(TranscriptItem::ApprovalStatus { approval, changed });
            },
            other => self.apply_setting(other),
        }
    }

    fn cancel(&mut self)
        ensures
            reflects(*old(self), *final(self), Event::Cancelled),
    {
        self.settle_all();
        self.queued = 0;
        self.pending_approval = None;
        self.focus = Focus::Input;
        self.deny_last_tool();
        self.push_item(TranscriptItem::Notice(String::from_str("Cancelled")));
    }

    fn apply_model(&mut self, model: String, effort_level: Option<String>)
        ensures
            reflects(*old(self), *final(self), Event::ModelChanged { model, effort_level }),
    {
        let changed: bool = !same(&model, &self.model);
        self.model = model;
        self.effort_level = effort_level;
        let label: String = self.label();
        let text: String = crate::ui::notice("Model", changed, &label);
        self.push_item(TranscriptItem::Notice(text));
    }

    fn apply_setting(&mut self, event: Event)
        requires
            event is AgenticChanged || event is EffortChanged || event is VerboseChanged
                || event is StreamChanged || event is MaxIterationsChanged
                || event is TemperatureChanged || event is TitleChanged,
        ensures
            reflects(*old(self), *final(self), event),
    {
        match event {
            Event::AgenticChanged { agentic } => {
                self.agentic = agentic;
            },
            Event::EffortChanged { effort_level } => {
                self.effort_level = effort_level;
            },
            Event::VerboseChanged { verbose } => {
                self.verbose = verbose;
            },
            Event::StreamChanged { stream } => {
                self.stream = stream;
            },
            Event::MaxIterationsChanged { max_iterations } => {
                self.max_iterations = max_iterations;
            },
            Event::TemperatureChanged { temperature } => {
                self.temperature = temperature;
            },
            Event::TitleChanged { title } => {
                self.title = title;
            },
            _ => {},
        }
    }

    fn apply_agent(&mut self, event: AgentEvent)
        ensures
            final(self).blocks() == blocks_after(
                old(self).blocks(),
                event,
                old(self).label_view(),
            ),
            *final(self) == if settles_a_call(event) {
                App {
                    transcript: final(self).transcript,
                    pending_approval: None,
                    focus: Focus::Input,
                    ..*old(self)
                }
            } else {
                App { transcript: final(self).transcript, ..*old(self) }
            },
    {
        match event {
            AgentEvent::AssistantDelta { text } => self.push_delta(&text),
            AgentEvent::AssistantMessage { model, effort_level, text } => {
                self.push_message(model, effort_level, text);
                let ghost t = self.blocks();
                self.finish_streaming();
                assert(self.blocks() =~= t);
            },
            AgentEvent::ToolCallStarted { name, arguments } => {
                self.finish_streaming();
                self.push_item(
                    TranscriptItem::ToolCall { name, arguments, status: ToolStatus::Running },
                );
            },
            AgentEvent::ToolCallDenied { .. } => {
                self.set_last_tool_status(ToolStatus::Denied);
                self.pending_approval = None;
                self.focus = Focus::Input;
            },
            AgentEvent::ToolCallCompleted { result, .. } => {
                self.set_last_tool_status(ToolStatus::Done { result });
                self.pending_approval = None;
                self.focus = Focus::Input;
            },
            AgentEvent::Error { message } => {
                self.finish_streaming();
                self.push_item(TranscriptItem::Error(message));
            },
            AgentEvent::Thinking { text } => {
                self.push_item(TranscriptItem::Thinking(text));
            },
            AgentEvent::Steered { text } => {
                self.push_item(TranscriptItem::User(text));
            },
            AgentEvent::RequestStarted | AgentEvent::RequestFinished
            | AgentEvent::IterationStarted { .. } | AgentEvent::TurnFinished => {},
        }
    }

    /// Reflects the user's answer at once. An allowed call runs; a denied one
    /// is settled by the worker.
    pub fn approval_answered(&mut self, allowed: bool)
        ensures
            final(self).blocks() == if allowed {
                with_status(old(self).blocks(), StatusView::Running)
            } else {
                old(self).blocks()
            },
            *final(self) == (App {
                transcript: final(self).transcript,
                pending_approval: None,
                focus: Focus::Input,
                ..*old(self)
            }),
    {
        self.pending_approval = None;
        self.focus = Focus::Input;
        if allowed {
            self.set_last_tool_status(ToolStatus::Running);
        }
    }

    /// Types a character at the cursor.
    pub fn insert_char(&mut self, c: char)
        requires
            old(self).wf(),
            byte_width(old(self).input@) + 4 <= usize::MAX,
        ensures
            final(self).wf(),
            final(self).input@ == old(self).input@.insert(old(self).caret(), c),
            final(self).caret() == old(self).caret() + 1,
            final(self).cursor == old(self).cursor + char_width(c),
            *final(self) == (App {
                input: final(self).input,
                cursor: final(self).cursor,
                ..*old(self)
            }),
    {
        let mut chars: Vec<char> = chars_of(&self.input);
        let k: usize = char_index(&chars, self.cursor);
        let ghost before = chars@;
        proof {
            lemma_width_grows(before, k as int, before.len() as int);
            assert(before.take(before.len() as int) =~= before);
        }
        chars.insert(k, c);
        proof {
            assert(chars@.take(k + 1).drop_last() =~= before.take(k as int));
            assert(chars@.take(k + 1).last() == c);
            a_cursor_has_one_place(chars@, byte_width(chars@.take(k + 1)), k + 1);
        }
        self.input = string_of(&chars);
        self.cursor = self.cursor + width_of(c);
    }

    /// Deletes the character in front of the cursor.
    pub fn backspace(&mut self)
        requires
            old(self).wf(),
        ensures
            final(self).wf(),
            old(self).caret() == 0 ==> *final(self) == *old(self),
            old(self).caret() > 0 ==> final(self).input@ == old(self).input@.remove(
                old(self).caret() - 1,
            ) && final(self).caret() == old(self).caret() - 1,
            *final(self) == (App {
                input: final(self).input,
                cursor: final(self).cursor,
                ..*old(self)
            }),
    {
        let mut chars: Vec<char> = chars_of(&self.input);
        let k: usize = char_index(&chars, self.cursor);
        if k == 0 {
            return;
        }
        let ghost before = chars@;
        assert(before.take(k as int).drop_last() =~= before.take(k - 1));
        let c: char = chars.remove(k - 1);
        proof {
            assert(chars@.take(k - 1) =~= before.take(k - 1));
            a_cursor_has_one_place(chars@, byte_width(before.take(k - 1)), k - 1);
        }
        self.cursor = self.cursor - width_of(c);
        self.input = string_of(&chars);
    }

    /// Moves the cursor one character back.
    pub fn move_left(&mut self)
        requires
            old(self).wf(),
        ensures
            final(self).wf(),
            final(self).caret() == if old(self).caret() > 0 {
                old(self).caret() - 1
            } else {
                0
            },
            *final(self) == (App { cursor: final(self).cursor, ..*old(self) }),
    {
        let chars: Vec<char> = chars_of(&self.input);
        let k: usize = char_index(&chars, self.cursor);
        if k > 0 {
            assert(chars@.take(k as int).drop_last() =~= chars@.take(k - 1));
            self.cursor = self.cursor - width_of(chars[k - 1]);
            proof {
                a_cursor_has_one_place(chars@, self.cursor as nat, k - 1);
            }
        }
    }

    /// Moves the cursor one character on.
    pub fn move_right(&mut self)
        requires
            old(self).wf(),
        ensures
            final(self).wf(),
            final(self).caret() == if old(self).caret() < old(self).input@.len() {
                old(self).caret() + 1
            } else {
                old(self).caret()
            },
            *final(self) == (App { cursor: final(self).cursor, ..*old(self) }),
    {
        let chars: Vec<char> = chars_of(&self.input);
        let k: usize = char_index(&chars, self.cursor);
        if k < chars.len() {
            let _total: usize = total_width(&self.input);
            proof {
                assert(chars@.take(k + 1).drop_last() =~= chars@.take(k as int));
                lemma_width_grows(chars@, k + 1, chars@.len() as int);
                assert(chars@.take(chars@.len() as int) =~= chars@);
            }
            self.cursor = self.cursor + width_of(chars[k]);
            proof {
                a_cursor_has_one_place(chars@, self.cursor as nat, k + 1);
            }
        }
    }

    /// Takes the input, trimmed, and clears the box; nothing where it is
    /// blank.
    pub fn take_input(&mut self) -> (r: Option<String>)
        ensures
            opt_view(r) == if trim(old(self).input@).len() == 0 {
                None
            } else {
                Some(trim(old(self).input@))
            },
            r is None ==> *final(self) == *old(self),
            r is Some ==> final(self).wf() && final(self).input@.len() == 0 && final(self).cursor
                == 0 && *final(self) == (App {
                input: final(self).input,
                cursor: 0,
                ..*old(self)
            }),
    {
        let chars: Vec<char> = chars_of(&self.input);
        let text: &[char] = trim_chars(&chars);
        if text.len() == 0 {
            return None;
        }
        self.input = String::new();
        self.cursor = 0;
        proof {
            assert(self.input@.take(0) =~= Seq::<char>::empty());
            a_cursor_has_one_place(self.input@, 0, 0);
        }
        Some(string_of(text))
    }

    /// Puts a text into the box, with the cursor behind it.
    pub fn set_input(&mut self, text: String)
        ensures
            final(self).wf(),
            final(self).input == text,
            final(self).cursor == byte_width(text@),
            final(self).caret() == text@.len(),
            *final(self) == (App { input: text, cursor: final(self).cursor, ..*old(self) }),
    {
        let width: usize = total_width(&text);
        proof {
            assert(text@.take(text@.len() as int) =~= text@);
            a_cursor_has_one_place(text@, width as nat, text@.len() as int);
        }
        self.input = text;
        self.cursor = width;
    }

    /// Takes the answer to a question as it was typed, and clears the box.
    pub fn take_approval_answer(&mut self) -> (r: String)
        ensures
            r == old(self).input,
            final(self).wf(),
            final(self).input@.len() == 0,
            final(self).cursor == 0,
            *final(self) == (App { input: final(self).input, cursor: 0, ..*old(self) }),
    {
        let answer: String = self.input.clone();
        self.input = String::new();
        self.cursor = 0;
        proof {
            assert(self.input@.take(0) =~= Seq::<char>::empty());
            a_cursor_has_one_place(self.input@, 0, 0);
        }
        answer
    }

    /// Puts a pasted text in at the cursor.
    pub fn paste(&mut self, text: &str)
        requires
            old(self).wf(),
            byte_width(old(self).input@) + byte_width(text@) + 4 <= usize::MAX,
        ensures
            final(self).wf(),
            final(self).input@ == old(self).input@.take(old(self).caret()) + text@
                + old(self).input@.skip(old(self).caret()),
            final(self).caret() == old(self).caret() + text@.len(),
            *final(self) == (App {
                input: final(self).input,
                cursor: final(self).cursor,
                ..*old(self)
            }),
    {
        let chars: Vec<char> = chars_of(text);
        let ghost before = self.input@;
        let ghost at = self.caret();
        proof {
            lemma_caret_in_bounds(before, self.cursor as nat);
        }
        let mut i: usize = 0;
        assert(before.take(at) + chars@.take(0) + before.skip(at) =~= before);
        while i < chars.len()
            invariant
                i <= chars@.len(),
                self.wf(),
                0 <= at <= before.len(),
                byte_width(before) + byte_width(chars@) + 4 <= usize::MAX,
                self.input@ == before.take(at) + chars@.take(i as int) + before.skip(at),
                self.caret() == at + i,
                *self == (App { input: self.input, cursor: self.cursor, ..*old(self) }),
            decreases chars@.len() - i,
        {
            let ghost so_far = self.input@;
            proof {
                lemma_width_of_sum(before.take(at) + chars@.take(i as int), before.skip(at));
                lemma_width_of_sum(before.take(at), chars@.take(i as int));
                lemma_width_of_sum(before.take(at), before.skip(at));
                assert(before.take(at) + before.skip(at) =~= before);
                lemma_width_grows(chars@, i as int, chars@.len() as int);
                assert(chars@.take(chars@.len() as int) =~= chars@);
            }
            self.insert_char(chars[i]);
            assert(so_far.insert(at + i, chars@[i as int]) =~= before.take(at) + chars@.take(i + 1)
                + before.skip(at));
            i = i + 1;
        }
        assert(chars@.take(i as int) =~= text@);
    }

    /// Where the arrow key up leads in what was submitted: to the newest, then
    /// back to the oldest.
    pub open spec fn older(self) -> Option<int> {
        if self.input_history@.len() == 0 {
            None
        } else {
            match self.recalled {
                Some(i) => if i < self.input_history@.len() {
                    Some(
                        if i > 0 {
                            i - 1
                        } else {
                            0
                        },
                    )
                } else {
                    Some(self.input_history@.len() - 1)
                },
                None => Some(self.input_history@.len() - 1),
            }
        }
    }

    /// Recalls what was submitted before what is shown.
    pub fn history_up(&mut self)
        requires
            old(self).wf(),
        ensures
            final(self).wf(),
            match old(self).older() {
                Some(i) => {
                    &&& final(self).input == old(self).input_history@[i]
                    &&& final(self).caret() == final(self).input@.len()
                    &&& *final(self) == (App {
                        input: final(self).input,
                        cursor: final(self).cursor,
                        recalled: Some(i as usize),
                        ..*old(self)
                    })
                },
                None => *final(self) == *old(self),
            },
    {
        let count: usize = self.input_history.len();
        if count == 0 {
            return;
        }
        let index: usize = match self.recalled {
            Some(i) => if i < count {
                if i > 0 {
                    i - 1
                } else {
                    0
                }
            } else {
                count - 1
            },
            None => count - 1,
        };
        let text: String = self.input_history[index].clone();
        self.set_input(text);
        self.recalled = Some(index);
    }

    /// Recalls what was submitted after what is shown; behind the newest the
    /// box is empty.
    pub fn history_down(&mut self)
        requires
            old(self).wf(),
        ensures
            final(self).wf(),
            match old(self).recalled {
                Some(i) => if i + 1 < old(self).input_history@.len() {
                    &&& final(self).input == old(self).input_history@[i + 1]
                    &&& final(self).caret() == final(self).input@.len()
                    &&& *final(self) == (App {
                        input: final(self).input,
                        cursor: final(self).cursor,
                        recalled: Some((i + 1) as usize),
                        ..*old(self)
                    })
                } else {
                    &&& final(self).input@.len() == 0
                    &&& *final(self) == (App {
                        input: final(self).input,
                        cursor: 0,
                        recalled: None,
                        ..*old(self)
                    })
                },
                None => *final(self) == *old(self),
            },
    {
        let count: usize = self.input_history.len();
        match self.recalled {
            Some(i) => {
                if i < count && i + 1 < count {
                    let text: String = self.input_history[i + 1].clone();
                    self.set_input(text);
                    self.recalled = Some(i + 1);
                } else {
                    self.set_input(String::new());
                    self.recalled = None;
                }
            },
            None => {},
        }
    }
}

/// What the screen shows once it has taken in what the worker reports.
pub open spec fn reflects(before: App, after: App, event: Event) -> bool {
    match event {
        Event::UserMessage(text) => {
            &&& after.blocks() == before.blocks().push(ItemView::User(text@))
            &&& after == (App { transcript: after.transcript, ..before })
        },
        Event::Busy(busy) => {
            &&& after.blocks() == if busy {
                before.blocks()
            } else {
                all_settled(before.blocks())
            }
            &&& after == (App {
                transcript: after.transcript,
                busy,
                ..before
            })
        },
        Event::Queued { pending } => after == (App { queued: pending, ..before }),
        Event::Cancelled => {
            &&& after.blocks() == with_last_denied(
                all_settled(before.blocks()),
            ).push(ItemView::Notice("Cancelled"@))
            &&& after == (App {
                transcript: after.transcript,
                queued: 0,
                pending_approval: None,
                focus: Focus::Input,
                ..before
            })
        },
        Event::ApprovalRequested(request) => {
            &&& after.blocks() == with_status(
                before.blocks(),
                StatusView::AwaitingApproval,
            )
            &&& after == (App {
                transcript: after.transcript,
                pending_approval: Some(request),
                focus: Focus::Approval,
                ..before
            })
        },
        Event::ModelChanged { model, effort_level } => {
            &&& after.blocks() == before.blocks().push(
                ItemView::Notice(
                    notice_text(
                        "Model"@,
                        model@ != before.model@,
                        label_text(model@, opt_view(effort_level)),
                    ),
                ),
            )
            &&& after == (App {
                transcript: after.transcript,
                model,
                effort_level,
                ..before
            })
        },
        Event::AgenticChanged { agentic } => after == (App { agentic, ..before }),
        Event::EffortChanged { effort_level } => after == (App {
            effort_level,
            ..before
        }),
        Event::VerboseChanged { verbose } => after == (App { verbose, ..before }),
        Event::SandboxChanged { sandbox } => {
            &&& after.blocks() == before.blocks().push(
                ItemView::Notice(
                    notice_text(
                        "Sandbox"@,
                        sandbox != before.sandbox,
                        sandbox_state_text(sandbox),
                    ),
                ),
            )
            &&& after == (App {
                transcript: after.transcript,
                sandbox,
                ..before
            })
        },
        Event::StreamChanged { stream } => after == (App { stream, ..before }),
        Event::MaxIterationsChanged { max_iterations } => after == (App {
            max_iterations,
            ..before
        }),
        Event::ApprovalSettingsChanged { approval } => {
            &&& after.blocks() == before.blocks().push(
                ItemView::ApprovalStatus {
                    approval,
                    changed: approval != before.approval,
                },
            )
            &&& after == (App {
                transcript: after.transcript,
                approval,
                ..before
            })
        },
        Event::TemperatureChanged { temperature } => after == (App {
            temperature,
            ..before
        }),
        Event::TitleChanged { title } => after == (App { title, ..before }),
        Event::Agent(e) => {
            &&& after.blocks() == blocks_after(
                before.blocks(),
                e,
                before.label_view(),
            )
            &&& after == if settles_a_call(e) {
                App {
                    transcript: after.transcript,
                    pending_approval: None,
                    focus: Focus::Input,
                    ..before
                }
            } else {
                App { transcript: after.transcript, ..before }
            }
        },
    }
}

/// Whether an event says that a call will not wait any longer.
pub open spec fn settles_a_call(event: AgentEvent) -> bool {
    event is ToolCallDenied || event is ToolCallCompleted
}

/// The blocks once something has happened in the turn. `label` is what a reply
/// that starts to stream in is labelled with.
pub open spec fn blocks_after(
    t: Seq<ItemView>,
    event: AgentEvent,
    label: Seq<char>,
) -> Seq<ItemView> {
    match event {
        AgentEvent::AssistantDelta { text } => with_text(t, text@, label),
        AgentEvent::AssistantMessage { model, effort_level, text } => with_message(
            t,
            text@,
            label_text(model@, opt_view(effort_level)),
        ),
        AgentEvent::ToolCallStarted { name, arguments } => settled(t).push(
            ItemView::ToolCall { name: name@, arguments: arguments@, status: StatusView::Running },
        ),
        AgentEvent::ToolCallDenied { .. } => with_status(t, StatusView::Denied),
        AgentEvent::ToolCallCompleted { result, .. } => with_status(
            t,
            StatusView::Done { result: result@ },
        ),
        AgentEvent::Error { message } => settled(t).push(ItemView::Error(message@)),
        AgentEvent::Thinking { text } => t.push(ItemView::Thinking(text@)),
        AgentEvent::Steered { text } => t.push(ItemView::User(text@)),
        _ => t,
    }
}

/// A reply that streamed in piece by piece and then came as a whole is one
/// block, with the whole text, no longer streaming, under the label that it
/// started with.
pub proof fn the_whole_reply_replaces_what_streamed_in(
    t: Seq<ItemView>,
    first: Seq<char>,
    second: Seq<char>,
    whole: Seq<char>,
    label: Seq<char>,
    other: Seq<char>,
)
    requires
        !streams(t),
    ensures
        with_message(with_text(with_text(t, first, label), second, label), whole, other) == t.push(
            ItemView::Assistant { text: whole, streaming: false, label: Some(label) },
        ),
        with_text(with_text(t, first, label), second, label) == t.push(
            ItemView::Assistant { text: first + second, streaming: true, label: Some(label) },
        ),
{
    let one = with_text(t, first, label);
    assert(one.drop_last() =~= t);
    let two = with_text(one, second, label);
    assert(two.drop_last() =~= t);
    assert(with_message(two, whole, other).drop_last() =~= t);
}

/// Settling the transcript leaves no block marked as streaming, and changes
/// nothing but that mark.
pub proof fn a_settled_transcript_does_not_stream(t: Seq<ItemView>)
    ensures
        all_settled(t).len() == t.len(),
        forall|i: int| 0 <= i < t.len() ==> !is_streaming(#[trigger] all_settled(t)[i]),
        forall|i: int|
            0 <= i < t.len() && !is_streaming(t[i]) ==> #[trigger] all_settled(t)[i] == t[i],
        all_settled(all_settled(t)) == all_settled(t),
        !streams(settled(t)),
        settled(settled(t)) == settled(t),
{
    assert(all_settled(all_settled(t)) =~= all_settled(t));
    if t.len() > 0 {
        assert(settled(settled(t)) =~= settled(t));
    }
}

/// Once a turn has ended, or was cancelled, no reply is left marked as
/// streaming, wherever in the transcript it stands.
pub proof fn a_finished_turn_leaves_nothing_streaming(before: App, after: App, event: Event)
    requires
        reflects(before, after, event),
        event is Cancelled || event == Event::Busy(false),
    ensures
        forall|i: int| 0 <= i < after.blocks().len() ==> !is_streaming(#[trigger] after.blocks()[i]),
{
    let t = all_settled(before.blocks());
    a_settled_transcript_does_not_stream(before.blocks());
    if event is Cancelled {
        denying_starts_no_stream(t);
    }
}

proof fn denying_starts_no_stream(t: Seq<ItemView>)
    requires
        forall|i: int| 0 <= i < t.len() ==> !is_streaming(#[trigger] t[i]),
    ensures
        with_last_denied(t).len() == t.len(),
        forall|i: int| 0 <= i < t.len() ==> !is_streaming(#[trigger] with_last_denied(t)[i]),
    decreases t.len(),
{
    if t.len() > 0 {
        assert forall|i: int| 0 <= i < t.len() - 1 implies !is_streaming(
            #[trigger] t.drop_last()[i],
        ) by {
            assert(t.drop_last()[i] == t[i]);
        }
        denying_starts_no_stream(t.drop_last());
        assert(!is_streaming(t[t.len() - 1]));
        assert forall|i: int| 0 <= i < t.len() implies !is_streaming(
            #[trigger] with_last_denied(t)[i],
        ) by {
            if i < t.len() - 1 {
                assert(!is_streaming(t.drop_last()[i]));
                assert(!is_streaming(with_last_denied(t.drop_last())[i]));
            }
        }
    }
}

/// Setting the status of a call changes nothing but one status: no block is
/// added, dropped or moved.
pub proof fn a_status_change_keeps_every_block(t: Seq<ItemView>, status: StatusView)
    ensures
        with_status(t, status).len() == t.len(),
        forall|i: int|
            0 <= i < t.len() ==> (#[trigger] with_status(t, status)[i] == t[i] || (t[i] matches ItemView::ToolCall {
                name,
                arguments,
                status: s,
            } && is_open(s) && with_status(t, status)[i] == (ItemView::ToolCall {
                name,
                arguments,
                status,
            }))),
    decreases t.len(),
{
    if t.len() > 0 {
        a_status_change_keeps_every_block(t.drop_last(), status);
        let rest = with_status(t.drop_last(), status);
        assert forall|i: int| 0 <= i < t.len() implies (#[trigger] with_status(t, status)[i] == t[i]
            || (t[i] matches ItemView::ToolCall { name, arguments, status: s } && is_open(s)
            && with_status(t, status)[i] == (ItemView::ToolCall { name, arguments, status }))) by {
            if i < t.len() - 1 {
                assert(t.drop_last()[i] == t[i]);
                if with_status(t, status) == rest.push(t.last()) {
                    assert(with_status(t, status)[i] == rest[i]);
                }
            }
        }
    }
}

/// Typing a character and deleting it again leaves the input and the cursor
/// as they were.
pub proof fn backspace_undoes_typing(s: Seq<char>, k: int, c: char)
    requires
        0 <= k <= s.len(),
    ensures
        s.insert(k, c).remove(k) == s,
        byte_width(s.insert(k, c).take(k)) == byte_width(s.take(k)),
{
    assert(s.insert(k, c).remove(k) =~= s);
    assert(s.insert(k, c).take(k) =~= s.take(k));
}

/// Switching the model relabels nothing: every block stays, and one is added.
pub proof fn a_new_model_relabels_nothing(
    before: App,
    after: App,
    model: String,
    effort_level: Option<String>,
)
    requires
        reflects(before, after, Event::ModelChanged { model, effort_level }),
    ensures
        after.blocks().drop_last() == before.blocks(),
        after.blocks().len() == before.blocks().len() + 1,
{
    assert(after.blocks().drop_last() =~= before.blocks());
}

/// What the user is typing is never disturbed by what the worker reports.
pub proof fn typing_is_not_disturbed(before: App, after: App, event: Event)
    requires
        reflects(before, after, event),
    ensures
        after.input == before.input,
        after.cursor == before.cursor,
        after.input_history == before.input_history,
        after.scroll_back == before.scroll_back,
{
}

// ---------------------------------------------------------------------------
// Laws of the screen
// ---------------------------------------------------------------------------

/// More of a reply goes behind what has come of it, whatever it holds, and the
/// whole reply takes its place; no other block is touched, and the label stays.
pub proof fn more_of_a_reply_goes_behind_it(
    front: Seq<ItemView>,
    text: Seq<char>,
    label: Option<Seq<char>>,
    more: Seq<char>,
    other: Seq<char>,
)
    ensures
        ({
            let streaming = front.push(ItemView::Assistant { text, streaming: true, label });
            let complete = front.push(ItemView::Assistant { text, streaming: false, label });
            &&& with_text(streaming, more, other) == front.push(
                ItemView::Assistant { text: text + more, streaming: true, label },
            )
            &&& with_message(streaming, more, other) == front.push(
                ItemView::Assistant { text: more, streaming: false, label },
            )
            &&& with_text(complete, more, other) == complete.push(
                ItemView::Assistant { text: more, streaming: true, label: Some(other) },
            )
            &&& with_message(complete, more, other) == complete.push(
                ItemView::Assistant { text: more, streaming: false, label: Some(other) },
            )
            &&& settled(streaming) == complete
            &&& settled(complete) == complete
        }),
{
    let streaming = front.push(ItemView::Assistant { text, streaming: true, label });
    let complete = front.push(ItemView::Assistant { text, streaming: false, label });
    assert(streaming.drop_last() =~= front);
    assert(complete.drop_last() =~= front);
}

/// Whether a block is a call that is still open.
pub open spec fn is_open_call(item: ItemView) -> bool {
    item matches ItemView::ToolCall { status, .. } && is_open(status)
}

/// A new status goes to the last call that is still open, and to no other
/// block; where no call is open nothing changes.
pub proof fn a_status_goes_to_the_last_open_call(
    front: Seq<ItemView>,
    name: Seq<char>,
    arguments: Seq<char>,
    before: StatusView,
    behind: Seq<ItemView>,
    status: StatusView,
)
    requires
        before is Running || before is AwaitingApproval,
        forall|i: int| 0 <= i < behind.len() ==> !is_open_call(#[trigger] behind[i]),
    ensures
        with_status(
            front.push(ItemView::ToolCall { name, arguments, status: before }) + behind,
            status,
        ) == front.push(ItemView::ToolCall { name, arguments, status }) + behind,
        with_status(behind, status) == behind,
    decreases behind.len(),
{
    let open = front.push(ItemView::ToolCall { name, arguments, status: before });
    let set = front.push(ItemView::ToolCall { name, arguments, status });
    if behind.len() == 0 {
        assert(open + behind =~= open);
        assert(set + behind =~= set);
        assert(open.drop_last() =~= front);
    } else {
        let rest = behind.drop_last();
        assert(!is_open_call(behind[behind.len() - 1]));
        assert forall|i: int| 0 <= i < rest.len() implies !is_open_call(#[trigger] rest[i]) by {
            assert(rest[i] == behind[i]);
        }
        a_status_goes_to_the_last_open_call(front, name, arguments, before, rest, status);
        assert((open + behind).drop_last() =~= open + rest);
        assert((open + behind).last() == behind.last());
        assert((set + rest).push(behind.last()) =~= set + behind);
        assert(rest.push(behind.last()) =~= behind);
    }
}

/// Cancelling denies the last call where it is still open; one that was
/// settled stays as it is, and so does everything else.
pub proof fn cancelling_denies_the_last_call(
    front: Seq<ItemView>,
    name: Seq<char>,
    arguments: Seq<char>,
    status: StatusView,
    behind: Seq<ItemView>,
)
    requires
        forall|i: int| 0 <= i < behind.len() ==> !(#[trigger] behind[i] is ToolCall),
    ensures
        ({
            let called = front.push(ItemView::ToolCall { name, arguments, status }) + behind;
            &&& status is Running || status is AwaitingApproval ==> with_last_denied(called)
                == front.push(
                ItemView::ToolCall { name, arguments, status: StatusView::Denied },
            ) + behind
            &&& status is Done || status is Denied ==> with_last_denied(called) == called
            &&& with_last_denied(behind) == behind
        }),
    decreases behind.len(),
{
    let open = front.push(ItemView::ToolCall { name, arguments, status });
    let set = front.push(ItemView::ToolCall { name, arguments, status: StatusView::Denied });
    if behind.len() == 0 {
        assert(open + behind =~= open);
        assert(set + behind =~= set);
        assert(open.drop_last() =~= front);
    } else {
        let rest = behind.drop_last();
        assert(!(behind[behind.len() - 1] is ToolCall));
        assert forall|i: int| 0 <= i < rest.len() implies !(#[trigger] rest[i] is ToolCall) by {
            assert(rest[i] == behind[i]);
        }
        cancelling_denies_the_last_call(front, name, arguments, status, rest);
        assert((open + behind).drop_last() =~= open + rest);
        assert((open + behind).last() == behind.last());
        assert((set + rest).push(behind.last()) =~= set + behind);
        assert((open + rest).push(behind.last()) =~= open + behind);
        assert(rest.push(behind.last()) =~= behind);
    }
}

/// What happens in a turn is shown as it is reported: a call, an error, a
/// thought and what steers the turn each add one block, the last one, with what
/// was reported in it, and keep the blocks before it.
pub proof fn what_is_reported_is_shown(
    t: Seq<ItemView>,
    label: Seq<char>,
    name: String,
    text: String,
)
    requires
        !streams(t),
    ensures
        blocks_after(t, AgentEvent::ToolCallStarted { name, arguments: text }, label).last()
            == (ItemView::ToolCall {
            name: name@,
            arguments: text@,
            status: StatusView::Running,
        }),
        blocks_after(t, AgentEvent::ToolCallStarted { name, arguments: text }, label).len()
            == t.len() + 1,
        blocks_after(t, AgentEvent::Error { message: text }, label).last() == ItemView::Error(
            text@,
        ),
        blocks_after(t, AgentEvent::Error { message: text }, label).len() == t.len() + 1,
        blocks_after(t, AgentEvent::Thinking { text }, label) == t.push(ItemView::Thinking(text@)),
        blocks_after(t, AgentEvent::Steered { text }, label) == t.push(ItemView::User(text@)),
        blocks_after(t, AgentEvent::AssistantDelta { text }, label) == t.push(
            ItemView::Assistant { text: text@, streaming: true, label: Some(label) },
        ),
        blocks_after(t, AgentEvent::RequestStarted, label) == t,
        blocks_after(t, AgentEvent::RequestFinished, label) == t,
        blocks_after(t, AgentEvent::TurnFinished, label) == t,
        forall|i: int|
            0 <= i < t.len() ==> #[trigger] blocks_after(
                t,
                AgentEvent::ToolCallStarted { name, arguments: text },
                label,
            )[i] == t[i],
        forall|i: int|
            0 <= i < t.len() ==> #[trigger] blocks_after(
                t,
                AgentEvent::Error { message: text },
                label,
            )[i] == t[i],
{
    assert(settled(t) =~= t);
}

/// A call that was carried out shows its result, and one that was not that it
/// was denied, where it stood.
pub proof fn a_settled_call_shows_how_it_ended(
    front: Seq<ItemView>,
    name: Seq<char>,
    arguments: Seq<char>,
    label: Seq<char>,
    tool: String,
    result: String,
)
    ensures
        ({
            let running = front.push(
                ItemView::ToolCall { name, arguments, status: StatusView::Running },
            );
            &&& blocks_after(running, AgentEvent::ToolCallCompleted { name: tool, result }, label)
                == front.push(
                ItemView::ToolCall {
                    name,
                    arguments,
                    status: StatusView::Done { result: result@ },
                },
            )
            &&& blocks_after(running, AgentEvent::ToolCallDenied { name: tool }, label)
                == front.push(
                ItemView::ToolCall { name, arguments, status: StatusView::Denied },
            )
        }),
{
    let running = front.push(ItemView::ToolCall { name, arguments, status: StatusView::Running });
    assert(running.drop_last() =~= front);
}

/// What the worker reports is what the screen has: a setting takes the reported
/// value, a message is shown as it was sent, and a question takes the keys.
pub proof fn the_screen_has_what_is_reported(before: App, after: App, event: Event)
    requires
        reflects(before, after, event),
    ensures
        match event {
            Event::UserMessage(text) => after.blocks().len() == before.blocks().len() + 1
                && after.blocks().last() == ItemView::User(text@),
            Event::Busy(busy) => after.busy == busy,
            Event::Queued { pending } => after.queued == pending && after.blocks()
                == before.blocks(),
            Event::Cancelled => after.queued == 0 && after.pending_approval is None && after.focus
                == Focus::Input && after.blocks().last() == ItemView::Notice("Cancelled"@),
            Event::ApprovalRequested(request) => after.pending_approval == Some(request)
                && after.focus == Focus::Approval,
            Event::ModelChanged { model, effort_level } => after.model == model
                && after.effort_level == effort_level,
            Event::AgenticChanged { agentic } => after.agentic == agentic,
            Event::EffortChanged { effort_level } => after.effort_level == effort_level,
            Event::VerboseChanged { verbose } => after.verbose == verbose,
            Event::SandboxChanged { sandbox } => after.sandbox == sandbox,
            Event::StreamChanged { stream } => after.stream == stream,
            Event::MaxIterationsChanged { max_iterations } => after.max_iterations
                == max_iterations,
            Event::ApprovalSettingsChanged { approval } => after.approval == approval,
            Event::TemperatureChanged { temperature } => after.temperature == temperature,
            Event::TitleChanged { title } => after.title == title,
            Event::Agent(e) => e is ToolCallDenied || e is ToolCallCompleted ==> after.focus
                == Focus::Input && after.pending_approval is None,
        },
        !(event is Busy) ==> after.busy == before.busy,
        !(event is TitleChanged) ==> after.title == before.title,
        !(event is VerboseChanged) ==> after.verbose == before.verbose,
        !(event is ModelChanged) ==> after.model == before.model,
        after.session_id == before.session_id,
        after.pending == before.pending,
        after.pending_shell == before.pending_shell,
{
}

/// Behind `/model` stands the model; anything that is no such command is a
/// message, as it was typed.
pub proof fn only_the_model_command_is_none(text: Seq<char>, model: Seq<char>)
    requires
        model.len() > 0,
        trim(model) == model,
    ensures
        reading("/model"@ + " "@ + model) == SubmissionView::SetModel(model),
        reading("/model"@) == SubmissionView::ShowModel,
        trim(text).len() == 0 || trim(text)[0] != '/' ==> reading(text) == SubmissionView::Message(
            text,
        ),
{
    reveal_strlit("/model");
    crate::text::an_argument_stands_behind_its_name("/model"@, model);
    let t = "/model"@;
    assert(trim(t) == t);
    assert(t.take(6) =~= t);
    assert(t.skip(6).len() == 0);
    if trim(text).len() == 0 || trim(text)[0] != '/' {
        crate::text::a_different_start_is_no_prefix(trim(text), "/model"@, 0);
    }
}

/// What was said last is recalled first, then what was said before it, down to
/// the first, where recalling stays.
pub proof fn the_newest_is_recalled_first(app: App, i: usize)
    requires
        app.input_history@.len() > 0,
    ensures
        app.recalled is None ==> app.older() == Some(app.input_history@.len() - 1),
        app.recalled == Some(i) && 0 < i < app.input_history@.len() ==> app.older() == Some(i - 1),
        app.recalled == Some(0usize) ==> app.older() == Some(0int),
{
}

/// What the screen says of a new model and of the sandbox is what they are now,
/// and whether that is new.
pub proof fn a_change_is_said_as_it_is(before: App, after: App, event: Event)
    requires
        reflects(before, after, event),
    ensures
        event matches Event::ModelChanged { model, effort_level } ==> {
            let label = label_text(model@, opt_view(effort_level));
            &&& model@ != before.model@ ==> after.blocks().last() == ItemView::Notice(
                "Model"@ + " set to "@ + label,
            )
            &&& model@ == before.model@ ==> after.blocks().last() == ItemView::Notice(
                "Model"@ + " is "@ + label,
            )
        },
        event matches Event::SandboxChanged { sandbox } ==> {
            &&& sandbox != before.sandbox ==> after.blocks().last() == ItemView::Notice(
                "Sandbox"@ + " set to "@ + sandbox_state_text(sandbox),
            )
            &&& sandbox == before.sandbox ==> after.blocks().last() == ItemView::Notice(
                "Sandbox"@ + " is "@ + sandbox_state_text(sandbox),
            )
        },
        event matches Event::ApprovalSettingsChanged { approval } ==> after.blocks().last()
            == (ItemView::ApprovalStatus { approval, changed: approval != before.approval }),
{
    match event {
        Event::ModelChanged { model, effort_level } => crate::ui::a_notice_says_what_and_to_what(
            "Model"@,
            label_text(model@, opt_view(effort_level)),
        ),
        Event::SandboxChanged { sandbox } => crate::ui::a_notice_says_what_and_to_what(
            "Sandbox"@,
            sandbox_state_text(sandbox),
        ),
        _ => {},
    }
}

/// A block of the screen holds what it shows.
pub proof fn a_block_holds_what_it_shows(
    text: String,
    other: String,
    label: Option<String>,
    streaming: bool,
    status: ToolStatus,
)
    ensures
        TranscriptItem::User(text)@ == ItemView::User(text@),
        (TranscriptItem::Assistant { text, streaming, label })@ == (ItemView::Assistant {
            text: text@,
            streaming,
            label: opt_view(label),
        }),
        (TranscriptItem::ToolCall { name: text, arguments: other, status })@
            == (ItemView::ToolCall { name: text@, arguments: other@, status: status@ }),
        TranscriptItem::Error(text)@ == ItemView::Error(text@),
        TranscriptItem::Notice(text)@ == ItemView::Notice(text@),
        TranscriptItem::Thinking(text)@ == ItemView::Thinking(text@),
        (ToolStatus::Done { result: text })@ == (StatusView::Done { result: text@ }),
        ToolStatus::Denied@ is Denied,
        ToolStatus::Running@ is Running,
        ToolStatus::AwaitingApproval@ is AwaitingApproval,
{
}

} // verus!
