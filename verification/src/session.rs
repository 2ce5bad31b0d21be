//! A session: its settings, its messages, and what of them is saved. Every
//! change is written to the store first and kept in memory only once that
//! has succeeded, so that the two never disagree.

use vstd::prelude::*;
use vstd::string::*;

use crate::client::ChatMessage;
use crate::config::{same_temperature, temperatures_equal, ApprovalSettings, Temperature};
use crate::offsets::{
    ascii_can_be_cut_anywhere, chars_before, cut, cut_bytes, lemma_width_grows, on_boundary,
};
use crate::store::{
    any_user, derive_title, first_user_text, has_user, is_user, kind_of, kind_text, title_of,
    SessionSummary,
    KIND_AGENT_CHAT,
};
use crate::text::{clone_opt, opt_view, same, same_opt};

verus! {

/// What became of the directory that a session was started in.
#[derive(Debug, Clone, PartialEq, Eq)]
pub enum EnteredDir {
    Moved(String),
    Unchanged,
    Missing(String),
}

/// What to do about the directory that a session records: nothing where there
/// is none or it is the current one, and otherwise move there if it exists.
pub fn enter_working_dir(recorded: &Option<String>, exists: bool, is_current: bool) -> (r:
    EnteredDir)
    ensures
        r == match *recorded {
            None => EnteredDir::Unchanged,
            Some(dir) => if !exists {
                EnteredDir::Missing(dir)
            } else if is_current {
                EnteredDir::Unchanged
            } else {
                EnteredDir::Moved(dir)
            },
        },
{
    match recorded {
        None => EnteredDir::Unchanged,
        Some(dir) => {
            if !exists {
                EnteredDir::Missing(dir.clone())
            } else if is_current {
                EnteredDir::Unchanged
            } else {
                EnteredDir::Moved(dir.clone())
            }
        },
    }
}

/// Calls `Uuid::new_v4`, and `Display` on it. The id is drawn at random; it
/// always has thirty-six characters, all of them ASCII.
#[verifier::external_body]
fn new_session_id() -> (r: String)
    ensures
        r@.len() == 36,
        vstd::utf8::is_ascii_chars(r@),
{
    uuid::Uuid::new_v4().to_string()
}

/// A session in memory.
#[derive(Debug)]
pub struct ChatSession {
    pub id: String,
    pub title: String,
    pub model: String,
    pub kind: String,
    pub effort_level: Option<String>,
    pub verbose: bool,
    pub highlight: bool,
    pub max_iterations: Option<usize>,
    pub temperature: Option<Temperature>,
    pub approval: ApprovalSettings,
    pub sandbox: bool,
    pub stream: bool,
    pub working_dir: Option<String>,
    pub messages: Vec<ChatMessage>,
    /// Whether the title was given, or derived from what the user said.
    pub title_set: bool,
    /// How many messages have been saved.
    pub saved_len: usize,
}

/// A message that is to be saved, by its place in the conversation.
#[derive(Debug, Clone, PartialEq, Eq)]
pub struct PendingRow {
    pub seq: usize,
    pub model: String,
    pub effort_level: Option<String>,
}

/// What is to be saved, all of it or nothing.
#[derive(Debug, Clone, PartialEq, Eq)]
pub struct PendingSave {
    /// One for each message that has not been saved, in their order.
    pub rows: Vec<PendingRow>,
    /// A title derived from what the user said, where none is set yet.
    pub title: Option<String>,
}

/// A change of a session's settings.
#[derive(Debug, Clone, PartialEq, Eq)]
pub enum Change {
    Model(String),
    Agentic(bool),
    Effort(Option<String>),
    Verbose(bool),
    Stream(bool),
    Title(String),
    MaxIterations(Option<usize>),
    Temperature(Option<Temperature>),
    Approval(ApprovalSettings),
    Sandbox(bool),
}

impl ChatSession {
    /// No more messages are saved than there are.
    pub open spec fn wf(self) -> bool {
        self.saved_len <= self.messages@.len()
    }

    /// Whether saving derives a title.
    pub open spec fn derives_title(self) -> bool {
        !self.title_set && any_user(self.messages@)
    }

    /// A new session: untitled, empty, with the given settings.
    pub fn create(
        model: String,
        kind: &str,
        effort_level: Option<String>,
        max_iterations: Option<usize>,
        temperature: Option<Temperature>,
        approval: ApprovalSettings,
        sandbox: bool,
        verbose: bool,
        highlight: bool,
        stream: bool,
        working_dir: Option<String>,
    ) -> (r: Self)
        ensures
            r.wf(),
            r.id@.len() == 36,
            vstd::utf8::is_ascii_chars(r.id@),
            on_boundary(r.id@, 8),
            r.title@ == "Untitled"@,
            r.kind@ == kind@,
            r.messages@.len() == 0,
            !r.title_set,
            r == (ChatSession {
                id: r.id,
                title: r.title,
                model,
                kind: r.kind,
                effort_level,
                verbose,
                highlight,
                max_iterations,
                temperature,
                approval,
                sandbox,
                stream,
                working_dir,
                messages: r.messages,
                title_set: false,
                saved_len: 0,
            }),
    {
        let id: String = new_session_id();
        proof {
            ascii_can_be_cut_anywhere(id@, 8);
        }
        ChatSession {
            id,
            title: String::from_str("Untitled"),
            model,
            kind: String::from_str(kind),
            effort_level,
            verbose,
            highlight,
            max_iterations,
            temperature,
            approval,
            sandbox,
            stream,
            working_dir,
            messages: Vec::new(),
            title_set: false,
            saved_len: 0,
        }
    }

    /// A saved session, taken up again with the messages that were stored and
    /// with its own settings, but for the model.
    pub fn resume(summary: &SessionSummary, messages: Vec<ChatMessage>, model: String) -> (r: Self)
        ensures
            r.wf(),
            r.saved_len == messages@.len(),
            r == (ChatSession {
                id: summary.id,
                title: summary.title,
                model,
                kind: summary.kind,
                effort_level: summary.effort_level,
                verbose: summary.verbose,
                highlight: summary.highlight,
                max_iterations: match summary.max_iterations {
                    Some(n) => Some(n as usize),
                    None => None,
                },
                temperature: summary.temperature,
                approval: summary.approval,
                sandbox: summary.sandbox,
                stream: summary.stream,
                working_dir: summary.working_dir,
                messages,
                title_set: any_user(messages@),
                saved_len: messages@.len() as usize,
            }),
    {
        let title_set: bool = has_user(&messages);
        let saved_len: usize = messages.len();
        ChatSession {
            id: summary.id.clone(),
            title: summary.title.clone(),
            model,
            kind: summary.kind.clone(),
            effort_level: clone_opt(&summary.effort_level),
            verbose: summary.verbose,
            highlight: summary.highlight,
            max_iterations: match summary.max_iterations {
                Some(n) => Some(n as usize),
                None => None,
            },
            temperature: summary.temperature,
            approval: summary.approval,
            sandbox: summary.sandbox,
            stream: summary.stream,
            working_dir: clone_opt(&summary.working_dir),
            messages,
            title_set,
            saved_len,
        }
    }

    /// Whether a session that is resumed with this model has to record it.
    pub fn resume_records_model(summary: &SessionSummary, model: &str) -> (r: bool)
        ensures
            r == (summary.model@ != model@),
    {
        !same(&summary.model, model)
    }

    /// Whether a change has to be written: where it differs from what is in
    /// force, and a title always.
    pub open spec fn differs(self, change: Change) -> bool {
        match change {
            Change::Model(model) => self.model@ != model@,
            Change::Agentic(agentic) => self.kind@ != kind_text(agentic),
            Change::Effort(level) => opt_view(self.effort_level) != opt_view(level),
            Change::Verbose(verbose) => self.verbose != verbose,
            Change::Stream(stream) => self.stream != stream,
            Change::Title(_) => true,
            Change::MaxIterations(cap) => self.max_iterations != cap,
            Change::Temperature(t) => !temperatures_equal(self.temperature, t),
            Change::Approval(approval) => self.approval != approval,
            Change::Sandbox(sandbox) => self.sandbox != sandbox,
        }
    }

    /// The session after a change that was or was not written.
    pub open spec fn changed_to(
        self,
        after: ChatSession,
        change: Change,
        saved: Result<(), String>,
    ) -> bool {
        if saved is Err || !self.differs(change) {
            &&& after == (ChatSession { kind: after.kind, ..self })
            &&& after.kind@ == self.kind@
        } else {
            match change {
                Change::Model(model) => after == (ChatSession { model, ..self }),
                Change::Agentic(agentic) => {
                    &&& after == (ChatSession { kind: after.kind, ..self })
                    &&& after.kind@ == kind_text(agentic)
                },
                Change::Effort(level) => after == (ChatSession { effort_level: level, ..self }),
                Change::Verbose(verbose) => after == (ChatSession { verbose, ..self }),
                Change::Stream(stream) => after == (ChatSession { stream, ..self }),
                Change::Title(title) => after == (ChatSession { title, title_set: true, ..self }),
                Change::MaxIterations(cap) => after == (ChatSession {
                    max_iterations: cap,
                    ..self
                }),
                Change::Temperature(t) => after == (ChatSession { temperature: t, ..self }),
                Change::Approval(approval) => after == (ChatSession { approval, ..self }),
                Change::Sandbox(sandbox) => after == (ChatSession { sandbox, ..self }),
            }
        }
    }

    /// Whether a change has to be written.
    pub fn needs_write(&self, change: &Change) -> (r: bool)
        ensures
            r == self.differs(*change),
    {
        match change {
            Change::Model(model) => self.changes_model(model),
            Change::Agentic(agentic) => self.changes_mode(*agentic),
            Change::Effort(level) => self.changes_effort_level(level),
            Change::Verbose(verbose) => self.verbose != *verbose,
            Change::Stream(stream) => self.stream != *stream,
            Change::Title(_) => true,
            Change::MaxIterations(cap) => !same_cap(&self.max_iterations, cap),
            Change::Temperature(t) => !same_temperature(&self.temperature, t),
            Change::Approval(approval) => self.approval != *approval,
            Change::Sandbox(sandbox) => self.sandbox != *sandbox,
        }
    }

    /// Whether setting this model has to be written.
    pub fn changes_model(&self, model: &str) -> (r: bool)
        ensures
            r == (self.model@ != model@),
    {
        !same(&self.model, model)
    }

    /// Sets the model. `saved` is how writing it went, where it had to be.
    pub fn set_model(&mut self, model: String, saved: Result<(), String>) -> (r: Result<
        (),
        String,
    >)
        ensures
            r == if old(self).model@ == model@ {
                Ok(())
            } else {
                saved
            },
            *final(self) == if old(self).model@ != model@ && saved is Ok {
                ChatSession { model, ..*old(self) }
            } else {
                *old(self)
            },
    {
        if same(&self.model, &model) {
            return Ok(());
        }
        if saved.is_ok() {
            self.model = model;
        }
        saved
    }

    /// Whether switching to this mode has to be written.
    pub fn changes_mode(&self, agentic: bool) -> (r: bool)
        ensures
            r == (self.kind@ != kind_text(agentic)),
    {
        !same(&self.kind, kind_of(agentic))
    }

    /// Switches tools on or off. The conversation so far stays as it is.
    pub fn set_agentic(&mut self, agentic: bool, saved: Result<(), String>) -> (r: Result<
        (),
        String,
    >)
        ensures
            r == if old(self).kind@ == kind_text(agentic) {
                Ok(())
            } else {
                saved
            },
            *final(self) == (ChatSession { kind: final(self).kind, ..*old(self) }),
            final(self).kind@ == if saved is Ok {
                kind_text(agentic)
            } else {
                old(self).kind@
            },
    {
        let kind: &str = kind_of(agentic);
        if same(&self.kind, kind) {
            return Ok(());
        }
        if saved.is_ok() {
            self.kind = String::from_str(kind);
        }
        saved
    }

    /// Whether the session has tools.
    pub fn is_agentic(&self) -> (r: bool)
        ensures
            r == (self.kind@ == KIND_AGENT_CHAT@),
    {
        same(&self.kind, KIND_AGENT_CHAT)
    }

    /// Whether setting this effort level has to be written.
    pub fn changes_effort_level(&self, effort_level: &Option<String>) -> (r: bool)
        ensures
            r == (opt_view(self.effort_level) != opt_view(*effort_level)),
    {
        !same_opt(&self.effort_level, effort_level)
    }

    /// Sets the effort level.
    pub fn set_effort_level(
        &mut self,
        effort_level: Option<String>,
        saved: Result<(), String>,
    ) -> (r: Result<(), String>)
        ensures
            r == if opt_view(old(self).effort_level) == opt_view(effort_level) {
                Ok(())
            } else {
                saved
            },
            *final(self) == if opt_view(old(self).effort_level) != opt_view(effort_level)
                && saved is Ok {
                ChatSession { effort_level, ..*old(self) }
            } else {
                *old(self)
            },
    {
        if same_opt(&self.effort_level, &effort_level) {
            return Ok(());
        }
        if saved.is_ok() {
            self.effort_level = effort_level;
        }
        saved
    }

    /// Sets whether tool calls are shown in full. Writing is needed only where
    /// it differs.
    pub fn set_verbose(&mut self, verbose: bool, saved: Result<(), String>) -> (r: Result<
        (),
        String,
    >)
        ensures
            r == if old(self).verbose == verbose {
                Ok(())
            } else {
                saved
            },
            *final(self) == if saved is Ok {
                ChatSession { verbose, ..*old(self) }
            } else {
                *old(self)
            },
    {
        if self.verbose == verbose {
            return Ok(());
        }
        if saved.is_ok() {
            self.verbose = verbose;
        }
        saved
    }

    /// Whether the user's messages carry a band.
    pub fn highlight(&self) -> (r: bool)
        ensures
            r == self.highlight,
    {
        self.highlight
    }

    /// Sets whether the user's messages carry a band.
    pub fn set_highlight(&mut self, highlight: bool, saved: Result<(), String>) -> (r: Result<
        (),
        String,
    >)
        ensures
            r == if old(self).highlight == highlight {
                Ok(())
            } else {
                saved
            },
            *final(self) == if saved is Ok {
                ChatSession { highlight, ..*old(self) }
            } else {
                *old(self)
            },
    {
        if self.highlight == highlight {
            return Ok(());
        }
        if saved.is_ok() {
            self.highlight = highlight;
        }
        saved
    }

    pub fn verbose(&self) -> (r: bool)
        ensures
            r == self.verbose,
    {
        self.verbose
    }

    /// Sets the cap on iterations.
    pub fn set_max_iterations(
        &mut self,
        max_iterations: Option<usize>,
        saved: Result<(), String>,
    ) -> (r: Result<(), String>)
        ensures
            r == if old(self).max_iterations == max_iterations {
                Ok(())
            } else {
                saved
            },
            *final(self) == if saved is Ok {
                ChatSession { max_iterations, ..*old(self) }
            } else {
                *old(self)
            },
    {
        if same_cap(&self.max_iterations, &max_iterations) {
            return Ok(());
        }
        if saved.is_ok() {
            self.max_iterations = max_iterations;
        }
        saved
    }

    pub fn max_iterations(&self) -> (r: Option<usize>)
        ensures
            r == self.max_iterations,
    {
        self.max_iterations
    }

    /// Sets the temperature. One that compares as equal is left as it is.
    pub fn set_temperature(
        &mut self,
        temperature: Option<Temperature>,
        saved: Result<(), String>,
    ) -> (r: Result<(), String>)
        ensures
            r == if temperatures_equal(old(self).temperature, temperature) {
                Ok(())
            } else {
                saved
            },
            *final(self) == if !temperatures_equal(old(self).temperature, temperature)
                && saved is Ok {
                ChatSession { temperature, ..*old(self) }
            } else {
                *old(self)
            },
    {
        if same_temperature(&self.temperature, &temperature) {
            return Ok(());
        }
        if saved.is_ok() {
            self.temperature = temperature;
        }
        saved
    }

    pub fn temperature(&self) -> (r: Option<Temperature>)
        ensures
            r == self.temperature,
    {
        self.temperature
    }

    /// Sets which kinds of tool call ask first.
    pub fn set_approval(&mut self, approval: ApprovalSettings, saved: Result<(), String>) -> (r:
        Result<(), String>)
        ensures
            r == if old(self).approval == approval {
                Ok(())
            } else {
                saved
            },
            *final(self) == if saved is Ok {
                ChatSession { approval, ..*old(self) }
            } else {
                *old(self)
            },
    {
        if self.approval == approval {
            return Ok(());
        }
        if saved.is_ok() {
            self.approval = approval;
        }
        saved
    }

    pub fn approval(&self) -> (r: &ApprovalSettings)
        ensures
            *r == self.approval,
    {
        &self.approval
    }

    /// Sets whether writes are confined.
    pub fn set_sandbox(&mut self, sandbox: bool, saved: Result<(), String>) -> (r: Result<
        (),
        String,
    >)
        ensures
            r == if old(self).sandbox == sandbox {
                Ok(())
            } else {
                saved
            },
            *final(self) == if saved is Ok {
                ChatSession { sandbox, ..*old(self) }
            } else {
                *old(self)
            },
    {
        if self.sandbox == sandbox {
            return Ok(());
        }
        if saved.is_ok() {
            self.sandbox = sandbox;
        }
        saved
    }

    pub fn sandbox(&self) -> (r: bool)
        ensures
            r == self.sandbox,
    {
        self.sandbox
    }

    /// Sets whether replies stream in.
    pub fn set_stream(&mut self, stream: bool, saved: Result<(), String>) -> (r: Result<
        (),
        String,
    >)
        ensures
            r == if old(self).stream == stream {
                Ok(())
            } else {
                saved
            },
            *final(self) == if saved is Ok {
                ChatSession { stream, ..*old(self) }
            } else {
                *old(self)
            },
    {
        if self.stream == stream {
            return Ok(());
        }
        if saved.is_ok() {
            self.stream = stream;
        }
        saved
    }

    pub fn stream(&self) -> (r: bool)
        ensures
            r == self.stream,
    {
        self.stream
    }

    /// Records another directory. It is always written.
    pub fn set_working_dir(&mut self, working_dir: String, saved: Result<(), String>) -> (r: Result<
        (),
        String,
    >)
        ensures
            r == saved,
            *final(self) == if saved is Ok {
                ChatSession { working_dir: Some(working_dir), ..*old(self) }
            } else {
                *old(self)
            },
    {
        if saved.is_ok() {
            self.working_dir = Some(working_dir);
        }
        saved
    }

    pub fn working_dir(&self) -> (r: &Option<String>)
        ensures
            *r == self.working_dir,
    {
        &self.working_dir
    }

    pub fn title(&self) -> (r: &str)
        ensures
            r@ == self.title@,
    {
        &self.title
    }

    /// Gives the session a title, which no later save derives again. It is
    /// always written.
    pub fn set_title(&mut self, title: String, saved: Result<(), String>) -> (r: Result<(), String>)
        ensures
            r == saved,
            *final(self) == if saved is Ok {
                ChatSession { title, title_set: true, ..*old(self) }
            } else {
                *old(self)
            },
    {
        if saved.is_ok() {
            self.title = title;
            self.title_set = true;
        }
        saved
    }

    pub fn id(&self) -> (r: &str)
        ensures
            r@ == self.id@,
    {
        &self.id
    }

    /// The first eight bytes of the id.
    pub fn short_id(&self) -> (r: &str)
        requires
            on_boundary(self.id@, 8),
        ensures
            r@ == cut(self.id@, 8),
    {
        proof {
            let k = chars_before(self.id@, 8);
            lemma_width_grows(self.id@, k, self.id@.len() as int);
            assert(self.id@.take(self.id@.len() as int) =~= self.id@);
        }
        cut_bytes(&self.id, 8)
    }

    pub fn model(&self) -> (r: &str)
        ensures
            r@ == self.model@,
    {
        &self.model
    }

    pub fn effort_level(&self) -> (r: &Option<String>)
        ensures
            *r == self.effort_level,
    {
        &self.effort_level
    }

    pub fn messages(&self) -> (r: &Vec<ChatMessage>)
        ensures
            *r == self.messages,
    {
        &self.messages
    }

    /// Makes a change. `saved` is how writing it went, where it had to be;
    /// where that failed, nothing changes.
    pub fn make(&mut self, change: &Change, saved: Result<(), String>) -> (r: Result<(), String>)
        ensures
            old(self).changed_to(*final(self), *change, saved),
            r == if old(self).differs(*change) {
                saved
            } else {
                Ok(())
            },
    {
        match change {
            Change::Model(model) => self.set_model(model.clone(), saved),
            Change::Agentic(agentic) => self.set_agentic(*agentic, saved),
            Change::Effort(level) => self.set_effort_level(clone_opt(level), saved),
            Change::Verbose(verbose) => self.set_verbose(*verbose, saved),
            Change::Stream(stream) => self.set_stream(*stream, saved),
            Change::Title(title) => self.set_title(title.clone(), saved),
            Change::MaxIterations(cap) => self.set_max_iterations(*cap, saved),
            Change::Temperature(t) => self.set_temperature(*t, saved),
            Change::Approval(approval) => self.set_approval(*approval, saved),
            Change::Sandbox(sandbox) => self.set_sandbox(*sandbox, saved),
        }
    }

    /// Adds a message, which is not saved yet.
    pub fn push(&mut self, message: ChatMessage)
        requires
            old(self).wf(),
        ensures
            final(self).wf(),
            final(self).messages@ == old(self).messages@.push(message),
            *final(self) == (ChatSession { messages: final(self).messages, ..*old(self) }),
    {
        self.messages.push(message);
    }

    /// The messages, for a turn to add to. What is added is not saved yet.
    pub fn messages_mut(&mut self) -> (r: &mut Vec<ChatMessage>)
        ensures
            *r == old(self).messages,
            *final(self) == (ChatSession { messages: *final(r), ..*old(self) }),
    {
        &mut self.messages
    }

    /// Adds a message of the user's.
    pub fn push_user(&mut self, text: String)
        requires
            old(self).wf(),
        ensures
            final(self).wf(),
            final(self).messages@.len() == old(self).messages@.len() + 1,
            final(self).messages@.drop_last() == old(self).messages@,
            final(self).messages@.last().is_plain("user"@, text@, None),
            *final(self) == (ChatSession { messages: final(self).messages, ..*old(self) }),
    {
        let ghost before = self.messages@;
        self.push(ChatMessage::plain("user", text));
        assert(self.messages@.drop_last() =~= before);
    }

    /// Adds a message of the model's.
    pub fn push_assistant(&mut self, text: String)
        requires
            old(self).wf(),
        ensures
            final(self).wf(),
            final(self).messages@.len() == old(self).messages@.len() + 1,
            final(self).messages@.drop_last() == old(self).messages@,
            final(self).messages@.last().is_plain("assistant"@, text@, None),
            *final(self) == (ChatSession { messages: final(self).messages, ..*old(self) }),
    {
        let ghost before = self.messages@;
        self.push(ChatMessage::plain("assistant", text));
        assert(self.messages@.drop_last() =~= before);
    }

    /// What has to be saved now: every message that has not been, each tagged
    /// with the model and effort level in force, and a title where the session
    /// has none and the user has said something.
    pub fn pending(&self) -> (r: PendingSave)
        requires
            self.wf(),
        ensures
            r.rows@.len() == self.messages@.len() - self.saved_len,
            forall|i: int|
                0 <= i < r.rows@.len() ==> #[trigger] r.rows@[i] == (PendingRow {
                    seq: (self.saved_len + i) as usize,
                    model: self.model,
                    effort_level: self.effort_level,
                }),
            opt_view(r.title) == if self.derives_title() {
                Some(title_of(first_user_text(self.messages@)))
            } else {
                None
            },
    {
        let mut rows: Vec<PendingRow> = Vec::new();
        let mut seq: usize = self.saved_len;
        while seq < self.messages.len()
            invariant
                self.saved_len <= seq <= self.messages@.len(),
                rows@.len() == seq - self.saved_len,
                forall|i: int|
                    0 <= i < rows@.len() ==> #[trigger] rows@[i] == (PendingRow {
                        seq: (self.saved_len + i) as usize,
                        model: self.model,
                        effort_level: self.effort_level,
                    }),
            decreases self.messages@.len() - seq,
        {
            rows.push(
                PendingRow {
                    seq,
                    model: self.model.clone(),
                    effort_level: clone_opt(&self.effort_level),
                },
            );
            seq = seq + 1;
        }
        let title: Option<String> = if !self.title_set && has_user(&self.messages) {
            Some(derive_title(&self.messages))
        } else {
            None
        };
        PendingSave { rows, title }
    }

    /// What the session is once everything in it has been saved.
    pub open spec fn persisted_as(self, after: ChatSession) -> bool {
        &&& after == (ChatSession {
            saved_len: self.messages@.len() as usize,
            title: after.title,
            title_set: self.title_set || any_user(self.messages@),
            ..self
        })
        &&& after.saved_len == self.messages@.len()
        &&& if self.derives_title() {
            after.title@ == title_of(first_user_text(self.messages@))
        } else {
            after.title == self.title
        }
    }

    /// Takes in how saving went. On success every message counts as saved and
    /// a derived title is the session's; on failure nothing changes, so that
    /// the next attempt saves the same and more.
    pub fn persist_pending(&mut self, saved: Result<(), String>) -> (r: Result<(), String>)
        requires
            old(self).wf(),
        ensures
            final(self).wf(),
            r == saved,
            saved is Err ==> *final(self) == *old(self),
            saved is Ok ==> old(self).persisted_as(*final(self)),
    {
        if saved.is_ok() {
            if !self.title_set && has_user(&self.messages) {
                self.title = derive_title(&self.messages);
                self.title_set = true;
            }
            self.saved_len = self.messages.len();
        }
        saved
    }

    /// Adds one message and has it written at once, with anything else that is
    /// not saved yet. `write` is handed the session with the message in it, and
    /// says how that went; the message stays where it failed.
    pub fn push_and_persist<W: FnOnce(&ChatSession) -> Result<(), String>>(
        &mut self,
        message: ChatMessage,
        write: W,
    ) -> (r: Result<(), String>)
        requires
            old(self).wf(),
            forall|session: ChatSession|
                session.wf() && session.messages@ == old(self).messages@.push(message)
                    ==> #[trigger] write.requires((&session,)),
        ensures
            final(self).wf(),
            final(self).messages@ == old(self).messages@.push(message),
            exists|pushed: ChatSession|
                {
                    &&& pushed == (ChatSession { messages: pushed.messages, ..*old(self) })
                    &&& pushed.messages@ == old(self).messages@.push(message)
                    &&& #[trigger] write.ensures((&pushed,), r)
                    &&& r is Err ==> *final(self) == pushed
                    &&& r is Ok ==> pushed.persisted_as(*final(self))
                },
    {
        self.push(message);
        let ghost pushed = *self;
        let saved: Result<(), String> = write(self);
        assert(write.ensures((&pushed,), saved));
        self.persist_pending(saved)
    }

    /// Whether the session goes away on leaving: nobody named it and the user
    /// has said nothing in it.
    pub fn discard_if_unused(&self) -> (r: bool)
        ensures
            r == (!self.title_set && !any_user(self.messages@)),
    {
        !self.title_set && !has_user(&self.messages)
    }
}

fn same_cap(a: &Option<usize>, b: &Option<usize>) -> (r: bool)
    ensures
        r == (*a == *b),
{
    match (a, b) {
        (Some(x), Some(y)) => *x == *y,
        (None, None) => true,
        _ => false,
    }
}

/// What has to be saved of a session.
pub open spec fn unsaved(s: ChatSession) -> Seq<ChatMessage> {
    s.messages@.skip(s.saved_len as int)
}

/// Right after a successful save there is nothing left to save, so that saving
/// twice writes no message twice.
pub proof fn saving_twice_writes_nothing_twice(before: ChatSession, after: ChatSession)
    requires
        before.wf(),
        after.messages == before.messages,
        after.saved_len == before.messages@.len(),
        after.title_set == (before.title_set || any_user(before.messages@)),
    ensures
        unsaved(after).len() == 0,
        !after.derives_title(),
{
}

/// A save that failed leaves the next attempt everything that was pending,
/// and behind it what was said since.
pub proof fn a_failed_save_stays_pending(
    before: ChatSession,
    later: ChatSession,
    more: Seq<ChatMessage>,
)
    requires
        before.wf(),
        later.saved_len == before.saved_len,
        later.messages@ == before.messages@ + more,
    ensures
        unsaved(later) == unsaved(before) + more,
{
    assert(unsaved(later) =~= unsaved(before) + more);
}

/// Once a session has a title, no later save derives another, whatever is
/// said.
pub proof fn a_title_is_derived_once(s: ChatSession, messages: Vec<ChatMessage>)
    requires
        s.title_set,
    ensures
        !(ChatSession { messages, ..s }).derives_title(),
{
}

/// A change that was written sets what it names to what it says, and one that
/// was not leaves everything as it was.
pub proof fn a_change_sets_what_it_names(
    before: ChatSession,
    after: ChatSession,
    change: Change,
    saved: Result<(), String>,
)
    requires
        before.changed_to(after, change, saved),
    ensures
        saved is Ok ==> match change {
            Change::Model(model) => after.model@ == model@,
            Change::Agentic(agentic) => (after.kind@ == KIND_AGENT_CHAT@) == agentic,
            Change::Effort(level) => opt_view(after.effort_level) == opt_view(level),
            Change::Verbose(verbose) => after.verbose == verbose,
            Change::Stream(stream) => after.stream == stream,
            Change::Title(title) => after.title@ == title@ && after.title_set,
            Change::MaxIterations(cap) => after.max_iterations == cap,
            Change::Temperature(t) => after.temperature == t || temperatures_equal(
                after.temperature,
                t,
            ),
            Change::Approval(approval) => after.approval == approval,
            Change::Sandbox(sandbox) => after.sandbox == sandbox,
        },
        saved is Err || !(change is Model) ==> after.model == before.model,
        saved is Err || !(change is Agentic) ==> after.kind@ == before.kind@,
        saved is Err || !(change is Effort) ==> after.effort_level == before.effort_level,
        saved is Err || !(change is Verbose) ==> after.verbose == before.verbose,
        saved is Err || !(change is Stream) ==> after.stream == before.stream,
        saved is Err || !(change is Title) ==> after.title == before.title && after.title_set
            == before.title_set,
        saved is Err || !(change is MaxIterations) ==> after.max_iterations
            == before.max_iterations,
        saved is Err || !(change is Temperature) ==> after.temperature == before.temperature,
        saved is Err || !(change is Approval) ==> after.approval == before.approval,
        saved is Err || !(change is Sandbox) ==> after.sandbox == before.sandbox,
        after.messages == before.messages,
        after.saved_len == before.saved_len,
        after.id == before.id,
        after.working_dir == before.working_dir,
{
    if change is Agentic {
        crate::store::the_stored_kind_tells_the_mode(change->Agentic_0);
    }
}

/// Saving keeps the conversation and every setting; it counts every message as
/// saved, and names a session that has no name yet, as soon as the user has
/// said something, after what was said first.
pub proof fn saving_keeps_the_conversation(before: ChatSession, after: ChatSession)
    requires
        before.persisted_as(after),
    ensures
        after.messages == before.messages,
        after.saved_len == before.messages@.len(),
        after.id == before.id,
        after.model == before.model,
        after.kind == before.kind,
        after.effort_level == before.effort_level,
        after.approval == before.approval,
        after.sandbox == before.sandbox,
        before.title_set ==> after.title == before.title && after.title_set,
        !before.title_set && (exists|i: int|
            0 <= i < before.messages@.len() && (#[trigger] before.messages@[i]).role@ == "user"@)
            ==> after.title_set && after.title@ == title_of(first_user_text(before.messages@)),
        !before.title_set && (forall|i: int|
            0 <= i < before.messages@.len() ==> (#[trigger] before.messages@[i]).role@ != "user"@)
            ==> after.title == before.title && !after.title_set,
{
    if exists|i: int|
        0 <= i < before.messages@.len() && (#[trigger] before.messages@[i]).role@ == "user"@ {
        let i = choose|i: int|
            0 <= i < before.messages@.len() && (#[trigger] before.messages@[i]).role@ == "user"@;
        assert(is_user(before.messages@[i]));
    }
}

} // verus!
