//! The worker behind a conversation: one turn at a time, with messages,
//! answers and changes of settings taken in while it runs.

use std::collections::VecDeque;
use vstd::prelude::*;
use vstd::string::*;

use crate::client::ChatMessage;
use crate::config::{
    category_switched, temperatures_equal, ApprovalSettings, SessionGates, Temperature,
};
use crate::session::{Change, ChatSession};
use crate::store::{Activity, KIND_AGENT_CHAT};
use crate::text::{clone_opt, concat2, opt_view};
use crate::ui::{
    approval_line, approval_summary, primary_argument_text, AgentEvent, ApprovalRequest, Submission,
};

verus! {

/// What a front end asks of the worker.
#[derive(Debug, Clone, PartialEq, Eq)]
pub enum Command {
    Send(String),
    Approve(bool),
    Cancel,
    SetModel(String),
    SetAgentic(bool),
    SetEffort(Option<String>),
    ResetEffort,
    SetVerbose(bool),
    SetStream(bool),
    SetTitle(String),
    SetSandbox(bool),
    SetMaxIterations(Option<usize>),
    ResetMaxIterations,
    SetApproval { category: String, enabled: bool },
    SetTemperature(Option<Temperature>),
    ResetTemperature,
}

/// What the worker tells a front end.
#[derive(Debug, Clone, PartialEq, Eq)]
pub enum Event {
    Agent(AgentEvent),
    ApprovalRequested(ApprovalRequest),
    Busy(bool),
    Queued { pending: usize },
    Cancelled,
    UserMessage(String),
    ModelChanged { model: String, effort_level: Option<String> },
    AgenticChanged { agentic: bool },
    EffortChanged { effort_level: Option<String> },
    VerboseChanged { verbose: bool },
    SandboxChanged { sandbox: bool },
    StreamChanged { stream: bool },
    MaxIterationsChanged { max_iterations: Option<usize> },
    ApprovalSettingsChanged { approval: ApprovalSettings },
    TemperatureChanged { temperature: Option<Temperature> },
    TitleChanged { title: String },
}

/// Whether a submission is the worker's to apply. The others only show what
/// the front end already knows, or depend on what it shows now.
pub open spec fn changes_state(s: Submission) -> bool {
    match s {
        Submission::ShowModel | Submission::ShowApproval | Submission::ShowSandbox
        | Submission::ShowStatus | Submission::ShowVerbose | Submission::ShowStream
        | Submission::ShowTitle | Submission::ShowTemperature | Submission::ToggleVerbose
        | Submission::UnknownCommand(_) => false,
        _ => true,
    }
}

/// The command that a submission comes to, for those that change the session.
pub fn command_for(submission: &Submission) -> (r: Option<Command>)
    ensures
        r is Some <==> changes_state(*submission),
        match *submission {
            Submission::Message(text) => r == Some(Command::Send(text)),
            Submission::SetModel(model) => r == Some(Command::SetModel(model)),
            Submission::SetAgentic(agentic) => r == Some(Command::SetAgentic(agentic)),
            Submission::SetEffort(level) => r == Some(Command::SetEffort(level)),
            Submission::ResetEffort => r == Some(Command::ResetEffort),
            Submission::SetVerbose(verbose) => r == Some(Command::SetVerbose(verbose)),
            Submission::SetStream(stream) => r == Some(Command::SetStream(stream)),
            Submission::SetTitle(title) => r == Some(Command::SetTitle(title)),
            Submission::SetSandbox(sandbox) => r == Some(Command::SetSandbox(sandbox)),
            Submission::SetMaxIterations(n) => r == Some(Command::SetMaxIterations(n)),
            Submission::ResetMaxIterations => r == Some(Command::ResetMaxIterations),
            Submission::SetTemperature(t) => r == Some(Command::SetTemperature(t)),
            Submission::ResetTemperature => r == Some(Command::ResetTemperature),
            Submission::SetApproval { category, enabled } => r == Some(
                Command::SetApproval { category, enabled },
            ),
            _ => true,
        },
{
    match submission {
        Submission::Message(text) => Some(Command::Send(text.clone())),
        Submission::SetModel(model) => Some(Command::SetModel(model.clone())),
        Submission::SetAgentic(agentic) => Some(Command::SetAgentic(*agentic)),
        Submission::SetEffort(level) => Some(Command::SetEffort(clone_opt(level))),
        Submission::ResetEffort => Some(Command::ResetEffort),
        Submission::SetVerbose(verbose) => Some(Command::SetVerbose(*verbose)),
        Submission::SetStream(stream) => Some(Command::SetStream(*stream)),
        Submission::SetTitle(title) => Some(Command::SetTitle(title.clone())),
        Submission::SetSandbox(sandbox) => Some(Command::SetSandbox(*sandbox)),
        Submission::SetMaxIterations(n) => Some(Command::SetMaxIterations(*n)),
        Submission::ResetMaxIterations => Some(Command::ResetMaxIterations),
        Submission::SetTemperature(t) => Some(Command::SetTemperature(*t)),
        Submission::ResetTemperature => Some(Command::ResetTemperature),
        Submission::SetApproval { category, enabled } => Some(
            Command::SetApproval { category: category.clone(), enabled: *enabled },
        ),
        Submission::ShowModel | Submission::ShowApproval | Submission::ShowSandbox
        | Submission::ShowStatus | Submission::ShowVerbose | Submission::ShowStream
        | Submission::ShowTitle | Submission::ShowTemperature | Submission::ToggleVerbose
        | Submission::UnknownCommand(_) => None,
    }
}

/// How a turn ended.
#[derive(Debug, Clone, Copy, PartialEq, Eq, Structural)]
pub enum TurnOutcome {
    Completed,
    Cancelled,
    Disconnected,
}

/// A turn that is running.
#[derive(Debug, Clone, Copy, PartialEq, Eq, Structural)]
pub struct TurnState {
    /// Whether it was started with tools; a switch meanwhile is for the next.
    pub agentic: bool,
    /// Whether it waits for an answer.
    pub pending_approval: bool,
    pub failed: bool,
    pub outcome: Option<TurnOutcome>,
}

/// What a command means while a turn runs.
#[derive(Debug, Clone, PartialEq, Eq)]
pub enum BusyStep {
    /// Nothing: there is no question to answer.
    Ignore,
    /// The turn's question is answered, and it goes on working.
    Answer(bool),
    /// The turn is stopped.
    Abort,
    /// The message joins the turn.
    Steer(String),
    /// The message waits; so many do now.
    Queued(usize),
    /// A setting is changed, as it would be between turns.
    Apply(Command),
}

/// What a command means between turns.
#[derive(Debug, Clone, PartialEq, Eq)]
pub enum IdleStep {
    /// Nothing: there is no turn to answer or to stop.
    Ignore,
    /// Turns are run until no message waits.
    RunQueue,
    /// A setting is changed.
    Apply(Command),
}

/// Whether an event reports an error with the given text.
pub open spec fn is_error(event: Event, message: Seq<char>) -> bool {
    event matches Event::Agent(AgentEvent::Error { message: m }) && m@ == message
}

fn error_event(prefix: &str, e: &str) -> (r: Event)
    ensures
        is_error(r, prefix@ + e@),
{
    Event::Agent(AgentEvent::Error { message: concat2(prefix, e) })
}

/// The text of a failed write.
pub open spec fn failure(r: Result<(), String>) -> Option<Seq<char>> {
    match r {
        Ok(_) => None,
        Err(e) => Some(e@),
    }
}

/// What is reported of a setting: an error in front where it could not be
/// written, and what it is now.
pub open spec fn reports(
    events: Seq<Event>,
    failed: Option<Seq<char>>,
    prefix: Seq<char>,
    now: Event,
) -> bool {
    match failed {
        None => events == seq![now],
        Some(e) => events.len() == 2 && is_error(events[0], prefix + e) && events[1] == now,
    }
}

fn report(result: Result<(), String>, prefix: &str, now: Event) -> (r: Vec<Event>)
    ensures
        reports(r@, failure(result), prefix@, now),
{
    let mut events: Vec<Event> = Vec::new();
    match result {
        Ok(_) => {},
        Err(e) => {
            events.push(error_event(prefix, &e));
        },
    }
    events.push(now);
    assert(result is Ok ==> events@ =~= seq![now]);
    events
}

/// What is reported at the end of a turn: how many messages wait, where any
/// do, then why the conversation could not be saved and what its title is, and
/// last of all that no turn runs any more.
pub open spec fn ends_turn(
    events: Seq<Event>,
    waiting: nat,
    failed: Option<Seq<char>>,
    title: String,
) -> bool {
    let queued = if waiting > 0 {
        seq![Event::Queued { pending: waiting as usize }]
    } else {
        Seq::empty()
    };
    &&& events.len() > queued.len()
    &&& events.take(queued.len() as int) == queued
    &&& reports(
        events.subrange(queued.len() as int, events.len() - 1),
        failed,
        "Failed to save message: "@,
        Event::TitleChanged { title },
    )
    &&& events.last() == Event::Busy(false)
}

/// The end of a turn is reported once, behind everything else that is reported
/// then.
pub proof fn the_end_of_a_turn_is_its_last_report(
    events: Seq<Event>,
    waiting: nat,
    failed: Option<Seq<char>>,
    title: String,
)
    requires
        ends_turn(events, waiting, failed, title),
    ensures
        events.last() == Event::Busy(false),
        forall|i: int| 0 <= i < events.len() - 1 ==> !(#[trigger] events[i] is Busy),
{
    let k: int = if waiting > 0 {
        1
    } else {
        0
    };
    let told = events.subrange(k, events.len() - 1);
    assert forall|i: int| 0 <= i < events.len() - 1 implies !(#[trigger] events[i] is Busy) by {
        if i < k {
            assert(events.take(k)[i] == events[i]);
        } else {
            assert(told[i - k] == events[i]);
        }
    }
}

/// The worker behind a conversation.
pub struct Worker {
    pub session: ChatSession,
    /// What the settings are reset to.
    pub max_iterations: Option<usize>,
    pub temperature: Option<Temperature>,
    pub effort_level_default: Option<String>,
    /// Whether the next turn has tools.
    pub agentic: bool,
    /// The gates in force, also for a turn that is running.
    pub gates: SessionGates,
    /// Messages that wait for a turn of their own.
    pub queue: VecDeque<String>,
}

impl Worker {
    pub open spec fn wf(self) -> bool {
        self.session.wf()
    }

    /// A worker for a session.
    pub fn new(
        session: ChatSession,
        max_iterations: Option<usize>,
        temperature: Option<Temperature>,
        effort_level_default: Option<String>,
        agentic: bool,
    ) -> (r: Worker)
        requires
            session.wf(),
        ensures
            r.wf(),
            r.session == session,
            r.max_iterations == max_iterations,
            r.temperature == temperature,
            r.effort_level_default == effort_level_default,
            r.agentic == agentic,
            r.gates == (SessionGates { approval: session.approval, sandbox: session.sandbox }),
            r.queue@.len() == 0,
    {
        let gates: SessionGates = SessionGates::new(session.approval, session.sandbox);
        Worker {
            session,
            max_iterations,
            temperature,
            effort_level_default,
            agentic,
            gates,
            queue: VecDeque::new(),
        }
    }

    /// Takes in a command between turns.
    pub fn command_while_idle(&mut self, command: Command) -> (r: IdleStep)
        requires
            old(self).wf(),
        ensures
            final(self).wf(),
            match command {
                Command::Send(text) => r == IdleStep::RunQueue && final(self).queue@ == old(
                    self,
                ).queue@.push(text) && *final(self) == (Worker {
                    queue: final(self).queue,
                    ..*old(self)
                }),
                Command::Approve(_) | Command::Cancel => r == IdleStep::Ignore && *final(self)
                    == *old(self),
                _ => r == IdleStep::Apply(command) && *final(self) == *old(self),
            },
    {
        match command {
            Command::Send(text) => {
                self.queue.push_back(text);
                IdleStep::RunQueue
            },
            Command::Approve(_) | Command::Cancel => IdleStep::Ignore,
            other => IdleStep::Apply(other),
        }
    }

    /// Starts the turn of the message that has waited longest, if one waits:
    /// it joins the conversation, and the front end hears how many wait
    /// behind it, what was said, and that a turn runs.
    pub fn begin_turn(&mut self) -> (r: Option<(TurnState, Vec<Event>)>)
        requires
            old(self).wf(),
        ensures
            final(self).wf(),
            r is None <==> old(self).queue@.len() == 0,
            r is None ==> *final(self) == *old(self),
            r matches Some((turn, events)) ==> {
                let text = old(self).queue@[0];
                &&& turn == (TurnState {
                    agentic: old(self).agentic,
                    pending_approval: false,
                    failed: false,
                    outcome: None,
                })
                &&& final(self).queue@ == old(self).queue@.drop_first()
                &&& final(self).session.messages@.len() == old(self).session.messages@.len() + 1
                &&& final(self).session.messages@.drop_last() == old(self).session.messages@
                &&& final(self).session.messages@.last().is_plain("user"@, text@, None)
                &&& *final(self) == (Worker {
                    queue: final(self).queue,
                    session: ChatSession {
                        messages: final(self).session.messages,
                        ..old(self).session
                    },
                    ..*old(self)
                })
                &&& events@ == seq![
                    Event::Queued { pending: (old(self).queue@.len() - 1) as usize },
                    Event::UserMessage(text),
                    Event::Busy(true),
                ]
            },
    {
        if self.queue.len() == 0 {
            return None;
        }
        let text: String = match self.queue.pop_front() {
            Some(text) => text,
            None => {
                return None;
            },
        };
        assert(self.queue@ =~= old(self).queue@.drop_first());
        let mut events: Vec<Event> = Vec::new();
        events.push(Event::Queued { pending: self.queue.len() });
        events.push(Event::UserMessage(text.clone()));
        events.push(Event::Busy(true));
        self.session.push_user(text);
        assert(events@ =~= seq![
            Event::Queued { pending: (old(self).queue@.len() - 1) as usize },
            Event::UserMessage(old(self).queue@[0]),
            Event::Busy(true),
        ]);
        Some(
            (
                TurnState {
                    agentic: self.agentic,
                    pending_approval: false,
                    failed: false,
                    outcome: None,
                },
                events,
            ),
        )
    }

    /// Takes in the messages that a turn added, which it was handed a copy of
    /// the conversation to work on, and the error that it ended with.
    pub fn turn_finished(
        &mut self,
        turn: &mut TurnState,
        messages: Vec<ChatMessage>,
        error: Option<String>,
    ) -> (r: Vec<Event>)
        requires
            old(self).wf(),
        ensures
            final(self).wf(),
            *final(turn) == (TurnState {
                failed: error is Some,
                outcome: Some(TurnOutcome::Completed),
                ..*old(turn)
            }),
            final(self).session.messages@ == if messages@.len() > old(self).session.messages@.len() {
                old(self).session.messages@ + messages@.skip(
                    old(self).session.messages@.len() as int,
                )
            } else {
                old(self).session.messages@
            },
            *final(self) == (Worker {
                session: ChatSession {
                    messages: final(self).session.messages,
                    ..old(self).session
                },
                ..*old(self)
            }),
            r@ == match error {
                Some(message) => seq![Event::Agent(AgentEvent::Error { message })],
                None => Seq::empty(),
            },
    {
        turn.failed = error.is_some();
        turn.outcome = Some(TurnOutcome::Completed);
        self.absorb(messages);
        let mut events: Vec<Event> = Vec::new();
        match error {
            Some(message) => {
                events.push(Event::Agent(AgentEvent::Error { message }));
                assert(events@ =~= seq![Event::Agent(AgentEvent::Error { message })]);
            },
            None => {},
        }
        events
    }

    fn absorb(&mut self, messages: Vec<ChatMessage>)
        requires
            old(self).wf(),
        ensures
            final(self).wf(),
            final(self).session.messages@ == if messages@.len() > old(self).session.messages@.len() {
                old(self).session.messages@ + messages@.skip(
                    old(self).session.messages@.len() as int,
                )
            } else {
                old(self).session.messages@
            },
            *final(self) == (Worker {
                session: ChatSession {
                    messages: final(self).session.messages,
                    ..old(self).session
                },
                ..*old(self)
            }),
    {
        let already: usize = self.session.messages.len();
        let mut messages: Vec<ChatMessage> = messages;
        if already < messages.len() {
            let ghost all = messages@;
            let mut added: Vec<ChatMessage> = messages.split_off(already);
            assert(added@ =~= all.skip(already as int));
            self.session.messages.append(&mut added);
            assert(self.session.messages@ =~= old(self).session.messages@ + all.skip(
                already as int,
            ));
        }
    }

    /// Takes in that a turn broke down.
    pub fn turn_panicked(&mut self, turn: &mut TurnState, error: &str) -> (r: Event)
        ensures
            *final(self) == *old(self),
            *final(turn) == (TurnState {
                failed: true,
                outcome: Some(TurnOutcome::Completed),
                ..*old(turn)
            }),
            is_error(r, "Turn failed: "@ + error@),
    {
        turn.failed = true;
        turn.outcome = Some(TurnOutcome::Completed);
        error_event("Turn failed: ", error)
    }

    /// Takes in a question of the turn's, and says what the session is shown
    /// to be waiting for.
    pub fn approval_requested(turn: &mut TurnState, request: &ApprovalRequest) -> (r: String)
        ensures
            *final(turn) == (TurnState { pending_approval: true, ..*old(turn) }),
            r@ == approval_line(request.tool_name@, primary_argument_text(request.arguments@)),
    {
        turn.pending_approval = true;
        approval_summary(request)
    }

    /// Takes in that no more commands will come: the turn is stopped.
    pub fn commands_closed(turn: &mut TurnState)
        ensures
            *final(turn) == (TurnState {
                outcome: Some(TurnOutcome::Disconnected),
                ..*old(turn)
            }),
    {
        turn.outcome = Some(TurnOutcome::Disconnected);
    }

    /// Takes in a command while a turn runs.
    pub fn command_during_turn(&mut self, turn: &mut TurnState, command: Command) -> (r: BusyStep)
        requires
            old(self).wf(),
        ensures
            final(self).wf(),
            *final(self) == (Worker { queue: final(self).queue, ..*old(self) }),
            match command {
                Command::Approve(allowed) => {
                    &&& final(self).queue == old(self).queue
                    &&& *final(turn) == (TurnState { pending_approval: false, ..*old(turn) })
                    &&& r == if old(turn).pending_approval {
                        BusyStep::Answer(allowed)
                    } else {
                        BusyStep::Ignore
                    }
                },
                Command::Cancel => {
                    &&& final(self).queue == old(self).queue
                    &&& *final(turn) == (TurnState {
                        outcome: Some(TurnOutcome::Cancelled),
                        ..*old(turn)
                    })
                    &&& r == BusyStep::Abort
                },
                Command::Send(text) => {
                    &&& *final(turn) == *old(turn)
                    &&& if old(turn).agentic {
                        final(self).queue == old(self).queue && r == BusyStep::Steer(text)
                    } else {
                        final(self).queue@ == old(self).queue@.push(text) && r == BusyStep::Queued(
                            (old(self).queue@.len() + 1) as usize,
                        )
                    }
                },
                _ => {
                    &&& final(self).queue == old(self).queue
                    &&& *final(turn) == *old(turn)
                    &&& r == BusyStep::Apply(command)
                },
            },
    {
        match command {
            Command::Approve(allowed) => {
                if turn.pending_approval {
                    turn.pending_approval = false;
                    BusyStep::Answer(allowed)
                } else {
                    BusyStep::Ignore
                }
            },
            Command::Cancel => {
                turn.outcome = Some(TurnOutcome::Cancelled);
                BusyStep::Abort
            },
            Command::Send(text) => {
                if turn.agentic {
                    BusyStep::Steer(text)
                } else {
                    self.queue.push_back(text);
                    BusyStep::Queued(self.queue.len())
                }
            },
            other => BusyStep::Apply(other),
        }
    }

    /// How many messages wait once one has joined the running turn's, where
    /// `steered` do.
    pub fn waiting_with_steered(&self, steered: usize) -> (r: Event)
        requires
            self.queue@.len() + steered <= usize::MAX,
        ensures
            r == (Event::Queued { pending: (self.queue@.len() + steered) as usize }),
    {
        Event::Queued { pending: self.queue.len() + steered }
    }

    /// Takes back what was to join the turn and came too late for it: it waits
    /// behind what waits already, and none of it is lost.
    pub fn collect_leftovers(&mut self, steered: Vec<String>) -> (r: Option<Event>)
        requires
            old(self).wf(),
        ensures
            final(self).wf(),
            final(self).queue@ == old(self).queue@ + steered@,
            *final(self) == (Worker { queue: final(self).queue, ..*old(self) }),
            r == if final(self).queue@.len() > 0 {
                Some(Event::Queued { pending: final(self).queue@.len() as usize })
            } else {
                None
            },
    {
        let mut steered: Vec<String> = steered;
        let ghost all = self.queue@ + steered@;
        while steered.len() > 0
            invariant
                self.queue@ + steered@ == all,
                *self == (Worker { queue: self.queue, ..*old(self) }),
            decreases steered@.len(),
        {
            let ghost (waiting, late) = (self.queue@, steered@);
            let text: String = steered.remove(0);
            self.queue.push_back(text);
            assert(self.queue@ + steered@ =~= waiting + late);
        }
        assert(self.queue@ =~= all);
        if self.queue.len() > 0 {
            Some(Event::Queued { pending: self.queue.len() })
        } else {
            None
        }
    }

    /// Takes in how saving the conversation went, and says what its title is.
    pub fn persist(&mut self, saved: Result<(), String>) -> (r: Vec<Event>)
        requires
            old(self).wf(),
        ensures
            final(self).wf(),
            saved is Err ==> *final(self) == *old(self),
            saved is Ok ==> old(self).session.persisted_as(final(self).session),
            *final(self) == (Worker { session: final(self).session, ..*old(self) }),
            reports(
                r@,
                failure(saved),
                "Failed to save message: "@,
                Event::TitleChanged { title: final(self).session.title },
            ),
    {
        let result: Result<(), String> = self.session.persist_pending(saved);
        let now: Event = Event::TitleChanged { title: self.session.title.clone() };
        report(result, "Failed to save message: ", now)
    }

    /// What the session's process is shown to be doing once a turn is over.
    pub fn activity_after(turn: &TurnState) -> (r: Option<Activity>)
        ensures
            r == if turn.failed {
                Some(Activity::Failed)
            } else {
                None
            },
    {
        if turn.failed {
            Some(Activity::Failed)
        } else {
            None
        }
    }

    /// Ends a turn, given what was to join it and came too late, and how saving
    /// the conversation went. What came too late waits behind what waits
    /// already. Returns what is reported, which ends with that no turn runs any
    /// more, and what the session's process is shown to be doing.
    pub fn end_turn(
        &mut self,
        turn: &TurnState,
        steered: Vec<String>,
        saved: Result<(), String>,
    ) -> (r: (Vec<Event>, Option<Activity>))
        requires
            old(self).wf(),
        ensures
            final(self).wf(),
            final(self).queue@ == old(self).queue@ + steered@,
            saved is Err ==> final(self).session == old(self).session,
            saved is Ok ==> old(self).session.persisted_as(final(self).session),
            *final(self) == (Worker {
                queue: final(self).queue,
                session: final(self).session,
                ..*old(self)
            }),
            ends_turn(
                r.0@,
                final(self).queue@.len(),
                failure(saved),
                final(self).session.title,
            ),
            r.0@.len() > 0 && r.0@.last() == Event::Busy(false),
            r.1 == if turn.failed {
                Some(Activity::Failed)
            } else {
                None
            },
    {
        let mut events: Vec<Event> = Vec::new();
        match self.collect_leftovers(steered) {
            Some(event) => {
                events.push(event);
            },
            None => {},
        }
        let ghost queued = events@;
        let mut told: Vec<Event> = self.persist(saved);
        let ghost reported = told@;
        events.append(&mut told);
        events.push(Event::Busy(false));
        assert(events@ =~= queued + reported + seq![Event::Busy(false)]);
        assert(events@.take(queued.len() as int) =~= queued);
        assert(events@.subrange(queued.len() as int, events@.len() - 1) =~= reported);
        assert(queued =~= if self.queue@.len() > 0 {
            seq![Event::Queued { pending: self.queue@.len() as usize }]
        } else {
            Seq::empty()
        });
        (events, Self::activity_after(turn))
    }

    /// What follows a turn: the next one, or nothing more after a cancelled
    /// one, with which everything that waited is dropped. Returns whether the
    /// queue is run on, and what is reported.
    pub fn after_turn(&mut self, outcome: TurnOutcome) -> (r: (bool, Option<Event>))
        requires
            old(self).wf(),
        ensures
            final(self).wf(),
            *final(self) == (Worker { queue: final(self).queue, ..*old(self) }),
            final(self).queue@ == if outcome == TurnOutcome::Cancelled {
                Seq::empty()
            } else {
                old(self).queue@
            },
            r == match outcome {
                TurnOutcome::Completed => (true, None::<Event>),
                TurnOutcome::Cancelled => (false, Some(Event::Cancelled)),
                TurnOutcome::Disconnected => (false, None::<Event>),
            },
    {
        match outcome {
            TurnOutcome::Completed => (true, None),
            TurnOutcome::Cancelled => {
                self.queue.clear();
                (false, Some(Event::Cancelled))
            },
            TurnOutcome::Disconnected => (false, None),
        }
    }

    /// The effort level that a reset sets.
    pub fn effort_default(&self) -> (r: Option<String>)
        ensures
            r == self.effort_level_default,
    {
        clone_opt(&self.effort_level_default)
    }

    /// What a command changes in the session: a reset sets the default, and a
    /// command that is no setting changes nothing.
    pub open spec fn change(self, command: Command) -> Option<Change> {
        match command {
            Command::SetModel(model) => Some(Change::Model(model)),
            Command::SetAgentic(agentic) => Some(Change::Agentic(agentic)),
            Command::SetEffort(level) => Some(Change::Effort(level)),
            Command::ResetEffort => Some(Change::Effort(self.effort_level_default)),
            Command::SetVerbose(verbose) => Some(Change::Verbose(verbose)),
            Command::SetStream(stream) => Some(Change::Stream(stream)),
            Command::SetTitle(title) => Some(Change::Title(title)),
            Command::SetSandbox(sandbox) => Some(Change::Sandbox(sandbox)),
            Command::SetMaxIterations(cap) => Some(Change::MaxIterations(cap)),
            Command::ResetMaxIterations => Some(Change::MaxIterations(self.max_iterations)),
            Command::SetTemperature(t) => Some(Change::Temperature(t)),
            Command::ResetTemperature => Some(Change::Temperature(self.temperature)),
            Command::SetApproval { category, enabled } => Some(
                Change::Approval(
                    category_switched(self.session.approval, category@, enabled),
                ),
            ),
            Command::Send(_) | Command::Approve(_) | Command::Cancel => None,
        }
    }

    /// What a command changes in the session.
    pub fn change_of(&self, command: &Command) -> (r: Option<Change>)
        ensures
            r == self.change(*command),
    {
        match command {
            Command::SetModel(model) => Some(Change::Model(model.clone())),
            Command::SetAgentic(agentic) => Some(Change::Agentic(*agentic)),
            Command::SetEffort(level) => Some(Change::Effort(clone_opt(level))),
            Command::ResetEffort => Some(Change::Effort(self.effort_default())),
            Command::SetVerbose(verbose) => Some(Change::Verbose(*verbose)),
            Command::SetStream(stream) => Some(Change::Stream(*stream)),
            Command::SetTitle(title) => Some(Change::Title(title.clone())),
            Command::SetSandbox(sandbox) => Some(Change::Sandbox(*sandbox)),
            Command::SetMaxIterations(cap) => Some(Change::MaxIterations(*cap)),
            Command::ResetMaxIterations => Some(Change::MaxIterations(self.max_iterations)),
            Command::SetTemperature(t) => Some(Change::Temperature(*t)),
            Command::ResetTemperature => Some(Change::Temperature(self.temperature)),
            Command::SetApproval { category, enabled } => Some(
                Change::Approval(self.session.approval.with_category(category, *enabled)),
            ),
            Command::Send(_) | Command::Approve(_) | Command::Cancel => None,
        }
    }

    /// What is in force once a change was made: where it concerns a gate, that
    /// has the new value at once, also where it could not be written.
    pub open spec fn gates_after(self, change: Change) -> SessionGates {
        match change {
            Change::Sandbox(sandbox) => SessionGates { sandbox, ..self.gates },
            Change::Approval(approval) => SessionGates { approval, ..self.gates },
            _ => self.gates,
        }
    }

    /// What is reported of a change, given why it could not be written: an
    /// error in front, and what the setting is now.
    pub open spec fn tells(
        self,
        change: Change,
        failed: Option<Seq<char>>,
        events: Seq<Event>,
    ) -> bool {
        match change {
            Change::Model(_) => reports(
                events,
                failed,
                "Failed to switch model: "@,
                Event::ModelChanged {
                    model: self.session.model,
                    effort_level: self.session.effort_level,
                },
            ),
            Change::Agentic(_) => reports(
                events,
                failed,
                "Failed to switch mode: "@,
                Event::AgenticChanged { agentic: self.agentic },
            ),
            Change::Effort(_) => reports(
                events,
                failed,
                "Failed to switch effort: "@,
                Event::EffortChanged { effort_level: self.session.effort_level },
            ),
            Change::Verbose(_) => reports(
                events,
                failed,
                "Failed to switch verbose: "@,
                Event::VerboseChanged { verbose: self.session.verbose },
            ),
            Change::Stream(stream) => reports(
                events,
                failed,
                "Failed to switch streaming: "@,
                Event::StreamChanged { stream },
            ),
            Change::Title(title) => match failed {
                None => events == seq![Event::TitleChanged { title }],
                Some(e) => events.len() == 1 && is_error(
                    events[0],
                    "Failed to rename the session: "@ + e,
                ),
            },
            Change::MaxIterations(_) => reports(
                events,
                failed,
                "Failed to switch max iterations: "@,
                Event::MaxIterationsChanged { max_iterations: self.session.max_iterations },
            ),
            Change::Temperature(_) => reports(
                events,
                failed,
                "Failed to switch temperature: "@,
                Event::TemperatureChanged { temperature: self.session.temperature },
            ),
            Change::Approval(_) => reports(
                events,
                failed,
                "Failed to switch approval: "@,
                Event::ApprovalSettingsChanged { approval: self.session.approval },
            ),
            Change::Sandbox(sandbox) => reports(
                events,
                failed,
                "Failed to switch the sandbox: "@,
                Event::SandboxChanged { sandbox },
            ),
        }
    }

    fn tell(&self, change: &Change, result: Result<(), String>) -> (r: Vec<Event>)
        ensures
            self.tells(*change, failure(result), r@),
    {
        match change {
            Change::Model(_) => {
                let now: Event = Event::ModelChanged {
                    model: self.session.model.clone(),
                    effort_level: clone_opt(&self.session.effort_level),
                };
                report(result, "Failed to switch model: ", now)
            },
            Change::Agentic(_) => {
                let now: Event = Event::AgenticChanged { agentic: self.agentic };
                report(result, "Failed to switch mode: ", now)
            },
            Change::Effort(_) => {
                let now: Event = Event::EffortChanged {
                    effort_level: clone_opt(&self.session.effort_level),
                };
                report(result, "Failed to switch effort: ", now)
            },
            Change::Verbose(_) => {
                let now: Event = Event::VerboseChanged { verbose: self.session.verbose };
                report(result, "Failed to switch verbose: ", now)
            },
            Change::Stream(stream) => {
                let now: Event = Event::StreamChanged { stream: *stream };
                report(result, "Failed to switch streaming: ", now)
            },
            Change::Title(title) => {
                let mut events: Vec<Event> = Vec::new();
                match result {
                    Ok(_) => {
                        events.push(Event::TitleChanged { title: title.clone() });
                        assert(events@ =~= seq![Event::TitleChanged { title: *title }]);
                    },
                    Err(e) => {
                        events.push(error_event("Failed to rename the session: ", &e));
                    },
                }
                events
            },
            Change::MaxIterations(_) => {
                let now: Event = Event::MaxIterationsChanged {
                    max_iterations: self.session.max_iterations,
                };
                report(result, "Failed to switch max iterations: ", now)
            },
            Change::Temperature(_) => {
                let now: Event = Event::TemperatureChanged {
                    temperature: self.session.temperature,
                };
                report(result, "Failed to switch temperature: ", now)
            },
            Change::Approval(_) => {
                let now: Event = Event::ApprovalSettingsChanged { approval: self.session.approval };
                report(result, "Failed to switch approval: ", now)
            },
            Change::Sandbox(sandbox) => {
                let now: Event = Event::SandboxChanged { sandbox: *sandbox };
                report(result, "Failed to switch the sandbox: ", now)
            },
        }
    }

    /// Makes a change of the session, and says what is reported: an error
    /// where it had to be written and was not, and what the setting is now.
    /// Whether the next turn has tools follows the session.
    pub fn make(&mut self, change: &Change, saved: Result<(), String>) -> (r: Vec<Event>)
        requires
            old(self).wf(),
        ensures
            final(self).wf(),
            old(self).session.changed_to(final(self).session, *change, saved),
            *final(self) == (Worker {
                session: final(self).session,
                agentic: if *change is Agentic {
                    final(self).session.kind@ == KIND_AGENT_CHAT@
                } else {
                    old(self).agentic
                },
                gates: old(self).gates_after(*change),
                ..*old(self)
            }),
            final(self).tells(
                *change,
                if old(self).session.differs(*change) {
                    failure(saved)
                } else {
                    None
                },
                r@,
            ),
    {
        match change {
            Change::Sandbox(sandbox) => self.gates.set_sandbox(*sandbox),
            Change::Approval(approval) => self.gates.set_approval(*approval),
            _ => {},
        }
        let result: Result<(), String> = self.session.make(change, saved);
        match change {
            Change::Agentic(_) => {
                self.agentic = self.session.is_agentic();
            },
            _ => {},
        }
        self.tell(change, result)
    }
}

/// A change that could not be written leaves the session's settings as they
/// were, and an error is reported first.
pub proof fn a_failed_change_is_reported(
    before: Worker,
    after: Worker,
    change: Change,
    saved: Result<(), String>,
    events: Seq<Event>,
)
    requires
        after.tells(change, failure(saved), events),
        before.session.changed_to(after.session, change, saved),
        before.session.differs(change),
        saved is Err,
    ensures
        after.session == (ChatSession { kind: after.session.kind, ..before.session }),
        after.session.kind@ == before.session.kind@,
        events.len() > 0,
        events[0] matches Event::Agent(AgentEvent::Error { .. }),
{
}

/// Messages sent while a turn runs are taken in the order in which they were
/// sent, and none is lost: behind those that waited already come those that
/// were to join the turn and came too late for it.
pub proof fn leftovers_wait_behind_the_queue(queue: Seq<String>, steered: Seq<String>, i: int)
    ensures
        0 <= i < queue.len() ==> (queue + steered)[i] == queue[i],
        queue.len() <= i < queue.len() + steered.len() ==> (queue + steered)[i] == steered[i
            - queue.len()],
        (queue + steered).len() == queue.len() + steered.len(),
{
}

/// A command sets what it names, to what it says; a reset sets the default, and
/// a command that is no setting changes nothing.
pub proof fn a_command_sets_what_it_names(
    worker: Worker,
    command: Command,
    after: ChatSession,
)
    requires
        worker.change(command) matches Some(change) ==> worker.session.changed_to(
            after,
            change,
            Ok(()),
        ),
        worker.change(command) is None ==> after == worker.session,
    ensures
        match command {
            Command::SetModel(model) => after.model@ == model@,
            Command::SetAgentic(agentic) => (after.kind@ == KIND_AGENT_CHAT@) == agentic,
            Command::SetEffort(level) => opt_view(after.effort_level) == opt_view(level),
            Command::ResetEffort => opt_view(after.effort_level) == opt_view(
                worker.effort_level_default,
            ),
            Command::SetVerbose(verbose) => after.verbose == verbose,
            Command::SetStream(stream) => after.stream == stream,
            Command::SetTitle(title) => after.title@ == title@ && after.title_set,
            Command::SetSandbox(sandbox) => after.sandbox == sandbox,
            Command::SetMaxIterations(cap) => after.max_iterations == cap,
            Command::ResetMaxIterations => after.max_iterations == worker.max_iterations,
            Command::SetTemperature(t) => after.temperature == t || temperatures_equal(
                after.temperature,
                t,
            ),
            Command::ResetTemperature => after.temperature == worker.temperature
                || temperatures_equal(after.temperature, worker.temperature),
            Command::SetApproval { category, enabled } => after.approval == category_switched(
                worker.session.approval,
                category@,
                enabled,
            ),
            Command::Send(_) | Command::Approve(_) | Command::Cancel => after == worker.session,
        },
        after.messages == worker.session.messages,
        after.id == worker.session.id,
{
    match worker.change(command) {
        Some(change) => crate::session::a_change_sets_what_it_names(
            worker.session,
            after,
            change,
            Ok(()),
        ),
        None => {},
    }
}

/// A gate follows the setting of its name at once, and the other one stays.
pub proof fn a_gate_follows_its_setting(worker: Worker, change: Change)
    ensures
        change matches Change::Sandbox(sandbox) ==> worker.gates_after(change).sandbox == sandbox
            && worker.gates_after(change).approval == worker.gates.approval,
        change matches Change::Approval(approval) ==> worker.gates_after(change).approval
            == approval && worker.gates_after(change).sandbox == worker.gates.sandbox,
        !(change is Sandbox) && !(change is Approval) ==> worker.gates_after(change)
            == worker.gates,
{
}

/// What is told of a change is what is in force now, and in front of it why it
/// could not be written, where it could not.
pub proof fn what_is_told_is_what_is_in_force(
    worker: Worker,
    change: Change,
    failed: Option<Seq<char>>,
    events: Seq<Event>,
)
    requires
        worker.tells(change, failed, events),
    ensures
        events.len() > 0,
        failed is None ==> events.len() == 1 && !(events[0] matches Event::Agent(_)),
        failed matches Some(e) ==> (events[0] matches Event::Agent(AgentEvent::Error { message })
            && message@.len() >= e.len() && message@.skip(message@.len() - e.len()) == e),
        change is Model ==> events.last() == (Event::ModelChanged {
            model: worker.session.model,
            effort_level: worker.session.effort_level,
        }),
        change is Agentic ==> events.last() == (Event::AgenticChanged { agentic: worker.agentic }),
        change is Effort ==> events.last() == (Event::EffortChanged {
            effort_level: worker.session.effort_level,
        }),
        change is Verbose ==> events.last() == (Event::VerboseChanged {
            verbose: worker.session.verbose,
        }),
        change is MaxIterations ==> events.last() == (Event::MaxIterationsChanged {
            max_iterations: worker.session.max_iterations,
        }),
        change is Temperature ==> events.last() == (Event::TemperatureChanged {
            temperature: worker.session.temperature,
        }),
        change is Approval ==> events.last() == (Event::ApprovalSettingsChanged {
            approval: worker.session.approval,
        }),
        change matches Change::Sandbox(sandbox) ==> events.last() == (Event::SandboxChanged {
            sandbox,
        }),
        change matches Change::Stream(stream) ==> events.last() == (Event::StreamChanged {
            stream,
        }),
        failed is None ==> (change matches Change::Title(title) ==> events.last()
            == (Event::TitleChanged { title })),
{
    match failed {
        Some(e) => {
            match events[0] {
                Event::Agent(AgentEvent::Error { message }) => {
                    reveal_strlit("Failed to rename the session: ");
                    assert(message@.skip(message@.len() - e.len()) =~= e);
                },
                _ => {},
            }
        },
        None => {},
    }
}

/// What is told at the end of a turn is how many messages wait, where any do,
/// then how the saving went and the title.
pub proof fn the_end_of_a_turn_tells_what_waits(
    events: Seq<Event>,
    waiting: nat,
    error: Seq<char>,
    title: String,
)
    requires
        waiting <= usize::MAX,
    ensures
        ends_turn(events, waiting, None, title) && waiting > 0 ==> events == seq![
            Event::Queued { pending: waiting as usize },
            Event::TitleChanged { title },
            Event::Busy(false),
        ],
        ends_turn(events, 0, None, title) ==> events == seq![
            Event::TitleChanged { title },
            Event::Busy(false),
        ],
        ends_turn(events, 0, Some(error), title) ==> events.len() == 3 && (events[0]
            matches Event::Agent(AgentEvent::Error { message }) && message@
            == "Failed to save message: "@ + error) && events[1] == (Event::TitleChanged { title }),
{
    let n: int = if waiting > 0 {
        1
    } else {
        0
    };
    let queued: Seq<Event> = if waiting > 0 {
        seq![Event::Queued { pending: waiting as usize }]
    } else {
        Seq::empty()
    };
    assert(queued.len() == n);
    let none: Seq<Event> = Seq::empty();
    assert(none.len() == 0);
    let told = events.subrange(n, events.len() - 1);
    let alone = events.subrange(0, events.len() - 1);
    let now = Event::TitleChanged { title };
    if ends_turn(events, waiting, None, title) && waiting > 0 {
        assert(events.take(n) == queued);
        assert(reports(told, None, "Failed to save message: "@, now));
        assert(told == seq![now]);
        assert(told.len() == seq![now].len());
        assert(events.len() == 3);
        assert(told[0] == events[1]);
        assert(events.take(1)[0] == events[0]);
        assert(events =~= seq![
            Event::Queued { pending: waiting as usize },
            now,
            Event::Busy(false),
        ]);
    }
    if ends_turn(events, 0, None, title) {
        assert(reports(alone, None, "Failed to save message: "@, now));
        assert(alone == seq![now]);
        assert(alone.len() == seq![now].len());
        assert(events.len() == 2);
        assert(alone[0] == events[0]);
        assert(events =~= seq![now, Event::Busy(false)]);
    }
    if ends_turn(events, 0, Some(error), title) {
        assert(reports(alone, Some(error), "Failed to save message: "@, now));
        assert(alone.len() == 2 && events.len() == 3);
        assert(alone[0] == events[0]);
        assert(alone[1] == events[1]);
    }
}

/// Only what asks for something to be shown, or is not understood, changes
/// nothing.
pub proof fn what_only_shows_changes_nothing(text: String, enabled: bool)
    ensures
        !changes_state(Submission::ShowStatus),
        !changes_state(Submission::ShowModel),
        !changes_state(Submission::UnknownCommand(text)),
        changes_state(Submission::Message(text)),
        changes_state(Submission::SetModel(text)),
        changes_state(Submission::SetSandbox(enabled)),
        changes_state(Submission::SetAgentic(enabled)),
{
}

} // verus!
