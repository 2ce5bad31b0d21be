//! The agent: which calls ask first, what is sent to the model, and the turn
//! in which it calls tools until it has answered.

use std::collections::VecDeque;
use std::sync::Arc;
use vstd::prelude::*;
use vstd::rwlock::{RwLock, RwLockPredicate};
use vstd::string::*;

use crate::client::{is_visible, ChatMessage, FunctionCall, ToolCall};
use crate::config::{ApprovalSettings, SessionGates};
use crate::text::{clone_opt, concat3, opt_view, same};
use crate::ui::{AgentEvent, ApprovalRequest};

verus! {

/// What the model is told in front of a conversation with tools.
pub const AGENT_CHAT_SYSTEM_PROMPT: &'static str = "You are a coding agent operating in a continuous interactive chat session. The conversation history may contain earlier user requests that you already completed, along with your replies and any tool calls/results for them. Treat each new user message as the only request currently being asked of you - use earlier turns purely as background context. Do not restate, re-summarize, or redo work from earlier turns unless the user explicitly asks you to.";

/// What a tool call does, as far as approval is concerned.
pub open spec fn category_text(tool_name: Seq<char>) -> Seq<char> {
    if tool_name == "read_file"@ || tool_name == "list_files"@ {
        "read"@
    } else if tool_name == "write_file"@ || tool_name == "replace_in_file"@ {
        "write"@
    } else if tool_name == "run_terminal_command"@ {
        "terminal"@
    } else {
        "unknown"@
    }
}

/// What a tool call does, as far as approval is concerned.
pub fn get_tool_category(tool_name: &str) -> (r: &'static str)
    ensures
        r@ == category_text(tool_name@),
{
    if same(tool_name, "read_file") || same(tool_name, "list_files") {
        "read"
    } else if same(tool_name, "write_file") || same(tool_name, "replace_in_file") {
        "write"
    } else if same(tool_name, "run_terminal_command") {
        "terminal"
    } else {
        "unknown"
    }
}

/// Whether a call asks first: fetching from the web never does, a known tool
/// does where its category says so, and an unknown one always does.
pub open spec fn asks(tool_name: Seq<char>, approval: ApprovalSettings) -> bool {
    if tool_name == "web_fetch"@ {
        false
    } else if tool_name == "read_file"@ || tool_name == "list_files"@ {
        approval.read_disk
    } else if tool_name == "write_file"@ || tool_name == "replace_in_file"@ {
        approval.write_disk
    } else if tool_name == "run_terminal_command"@ {
        approval.terminal
    } else {
        true
    }
}

proof fn lemma_categories_differ()
    ensures
        "read"@ != "write"@,
        "read"@ != "terminal"@,
        "read"@ != "unknown"@,
        "write"@ != "terminal"@,
        "write"@ != "unknown"@,
        "terminal"@ != "unknown"@,
{
    reveal_strlit("read");
    reveal_strlit("write");
    reveal_strlit("terminal");
    reveal_strlit("unknown");
    assert("read"@.len() == 4 && "write"@.len() == 5 && "terminal"@.len() == 8
        && "unknown"@.len() == 7);
}

/// Whether a call asks first.
pub fn requires_approval(tool_name: &str, approval: &ApprovalSettings) -> (r: bool)
    ensures
        r == asks(tool_name@, *approval),
{
    if same(tool_name, "web_fetch") {
        return false;
    }
    let category: &str = get_tool_category(tool_name);
    proof {
        lemma_categories_differ();
    }
    if same(category, "read") {
        approval.read_disk
    } else if same(category, "write") {
        approval.write_disk
    } else if same(category, "terminal") {
        approval.terminal
    } else {
        true
    }
}

/// Switching everything to automatic still asks for a tool that is not known.
pub proof fn an_unknown_tool_always_asks(tool_name: Seq<char>, approval: ApprovalSettings)
    requires
        category_text(tool_name) == "unknown"@,
        tool_name != "web_fetch"@,
    ensures
        asks(tool_name, approval),
{
    lemma_categories_differ();
}

/// Whether a call asks depends on its own category's switch alone.
pub proof fn approval_goes_by_the_category(
    a: ApprovalSettings,
    b: ApprovalSettings,
    tool_name: Seq<char>,
)
    requires
        category_text(tool_name) == "read"@ ==> a.read_disk == b.read_disk,
        category_text(tool_name) == "write"@ ==> a.write_disk == b.write_disk,
        category_text(tool_name) == "terminal"@ ==> a.terminal == b.terminal,
    ensures
        asks(tool_name, a) == asks(tool_name, b),
{
    lemma_categories_differ();
}

/// Whether a message is the agent's prompt.
pub open spec fn is_prompt(m: ChatMessage) -> bool {
    m.role@ == "system"@ && opt_view(m.content) == Some(AGENT_CHAT_SYSTEM_PROMPT@)
}

/// The messages that are not the agent's prompt.
pub open spec fn without_prompt(messages: Seq<ChatMessage>) -> Seq<ChatMessage>
    decreases messages.len(),
{
    if messages.len() == 0 {
        Seq::empty()
    } else {
        let before = without_prompt(messages.drop_last());
        if is_prompt(messages.last()) {
            before
        } else {
            before.push(messages.last())
        }
    }
}

/// Whether messages are what is sent: the prompt in front exactly for a turn
/// with tools, and no other copy of it.
pub open spec fn is_normalized(
    messages: Seq<ChatMessage>,
    original: Seq<ChatMessage>,
    agentic: bool,
) -> bool {
    if agentic {
        &&& messages.len() == without_prompt(original).len() + 1
        &&& messages[0].is_plain("system"@, AGENT_CHAT_SYSTEM_PROMPT@, None)
        &&& messages.skip(1) == without_prompt(original)
    } else {
        messages == without_prompt(original)
    }
}

/// Removes every copy of the agent's prompt, and puts a fresh one in front for
/// a turn with tools.
pub fn normalize_system_prompt(messages: &mut Vec<ChatMessage>, agentic: bool)
    ensures
        is_normalized(final(messages)@, old(messages)@, agentic),
{
    let ghost original = messages@;
    let ghost mut seen: int = 0;
    let mut i: usize = 0;
    assert(original.skip(0) == original);
    while i < messages.len()
        invariant
            0 <= seen <= original.len(),
            i <= messages@.len(),
            i == without_prompt(original.take(seen)).len(),
            messages@ == without_prompt(original.take(seen)) + original.skip(seen),
        decreases original.len() - seen,
    {
        let ghost kept = without_prompt(original.take(seen));
        assert(messages@[i as int] == original[seen]);
        assert(original.take(seen + 1).drop_last() == original.take(seen));
        let stray: bool = same(&messages[i].role, "system") && match &messages[i].content {
            Some(c) => same(c, AGENT_CHAT_SYSTEM_PROMPT),
            None => false,
        };
        assert(stray == is_prompt(original[seen]));
        if stray {
            messages.remove(i);
            assert(messages@ =~= kept + original.skip(seen + 1));
        } else {
            assert(messages@ =~= kept.push(original[seen]) + original.skip(seen + 1));
            i = i + 1;
        }
        proof {
            seen = seen + 1;
        }
    }
    assert(original.skip(seen).len() == 0);
    assert(seen == original.len());
    assert(original.take(seen) == original);
    assert(messages@ =~= without_prompt(original));
    if agentic {
        let prompt: ChatMessage = ChatMessage::plain(
            "system",
            String::from_str(AGENT_CHAT_SYSTEM_PROMPT),
        );
        messages.insert(0, prompt);
        assert(messages@.skip(1) =~= without_prompt(original));
    }
}

proof fn lemma_without_prompt_holds_none(messages: Seq<ChatMessage>)
    ensures
        forall|i: int|
            0 <= i < without_prompt(messages).len() ==> !is_prompt(
                #[trigger] without_prompt(messages)[i],
            ),
    decreases messages.len(),
{
    if messages.len() > 0 {
        let before = without_prompt(messages.drop_last());
        lemma_without_prompt_holds_none(messages.drop_last());
        assert forall|i: int| 0 <= i < without_prompt(messages).len() implies !is_prompt(
            #[trigger] without_prompt(messages)[i],
        ) by {
            if i < before.len() {
                assert(without_prompt(messages)[i] == before[i]);
            }
        }
    }
}

proof fn lemma_without_prompt_keeps_the_rest(messages: Seq<ChatMessage>)
    requires
        forall|i: int| 0 <= i < messages.len() ==> !is_prompt(#[trigger] messages[i]),
    ensures
        without_prompt(messages) == messages,
    decreases messages.len(),
{
    if messages.len() > 0 {
        lemma_without_prompt_keeps_the_rest(messages.drop_last());
        assert(messages.drop_last().push(messages.last()) == messages);
    }
}

/// What is sent holds the prompt once and in front for a turn with tools, and
/// not at all for one without.
pub proof fn what_is_sent_holds_the_prompt_at_most_once(
    sent: Seq<ChatMessage>,
    original: Seq<ChatMessage>,
    agentic: bool,
)
    requires
        is_normalized(sent, original, agentic),
    ensures
        forall|i: int|
            0 <= i < sent.len() ==> (is_prompt(#[trigger] sent[i]) <==> agentic && i == 0),
{
    lemma_without_prompt_holds_none(original);
    assert forall|i: int| 0 <= i < sent.len() implies (is_prompt(#[trigger] sent[i]) <==> agentic
        && i == 0) by {
        if agentic && i > 0 {
            assert(sent.skip(1)[i - 1] == sent[i]);
        }
    }
}

/// Normalizing what was already normalized changes nothing but the prompt's
/// own copy: the rest of the conversation is the same.
pub proof fn normalizing_twice_is_normalizing_once(
    once: Seq<ChatMessage>,
    original: Seq<ChatMessage>,
    twice: Seq<ChatMessage>,
    first: bool,
    second: bool,
)
    requires
        is_normalized(once, original, first),
        is_normalized(twice, once, second),
    ensures
        is_normalized(twice, original, second),
{
    lemma_without_prompt_holds_none(original);
    lemma_without_prompt_keeps_the_rest(without_prompt(original));
    if first {
        assert(once =~= seq![once[0]] + without_prompt(original));
        lemma_without_prompt_of_prompt_and_rest(once[0], without_prompt(original));
    }
}

proof fn lemma_without_prompt_of_prompt_and_rest(prompt: ChatMessage, rest: Seq<ChatMessage>)
    requires
        is_prompt(prompt),
    ensures
        without_prompt(seq![prompt] + rest) == without_prompt(rest),
    decreases rest.len(),
{
    let all = seq![prompt] + rest;
    if rest.len() == 0 {
        assert(all.drop_last() =~= Seq::empty());
        assert(without_prompt(all.drop_last()) =~= Seq::empty());
        assert(all.last() == prompt);
        assert(without_prompt(all) =~= without_prompt(rest));
    } else {
        lemma_without_prompt_of_prompt_and_rest(prompt, rest.drop_last());
        assert(all.drop_last() =~= seq![prompt] + rest.drop_last());
        assert(all.last() == rest.last());
    }
}

/// Drops the provider's reasoning record from a message that calls no tool:
/// it may only be sent back next to the call that it led to.
pub fn drop_dangling_reasoning(message: &mut ChatMessage)
    ensures
        *final(message) == if old(message).calls_tools() {
            *old(message)
        } else {
            ChatMessage { reasoning_details: None, ..*old(message) }
        },
{
    if !message.has_tool_calls() {
        message.reasoning_details = None;
    }
}

/// Settles a reply before it joins the conversation: hands out what the model
/// thought, and drops a reasoning record that leads to no call.
pub fn settle_reply(message: &mut ChatMessage) -> (thinking: Option<String>)
    ensures
        thinking == if is_visible(old(message).reasoning) {
            old(message).reasoning
        } else {
            None
        },
        *final(message) == if old(message).calls_tools() {
            *old(message)
        } else {
            ChatMessage { reasoning_details: None, ..*old(message) }
        },
{
    let thinking: Option<String> = message.thinking_text();
    drop_dangling_reasoning(message);
    thinking
}

// ---------------------------------------------------------------------------
// Steering
// ---------------------------------------------------------------------------

/// Any queue may be shared.
pub struct AnyQueue;

impl RwLockPredicate<VecDeque<String>> for AnyQueue {
    open spec fn inv(self, v: VecDeque<String>) -> bool {
        true
    }
}

/// Adds a message to a queue and says how many wait in it now.
pub fn enqueue(pending: &mut VecDeque<String>, text: String) -> (r: usize)
    ensures
        final(pending)@ == old(pending)@.push(text),
        r == final(pending)@.len(),
{
    pending.push_back(text);
    pending.len()
}

/// Takes every message out of a queue, in the order they came.
pub fn drain(pending: &mut VecDeque<String>) -> (r: Vec<String>)
    ensures
        r@ == old(pending)@,
        final(pending)@.len() == 0,
{
    let mut taken: Vec<String> = Vec::new();
    let ghost all = pending@;
    while pending.len() > 0
        invariant
            taken@ + pending@ == all,
        decreases pending@.len(),
    {
        let ghost (done, waiting) = (taken@, pending@);
        match pending.pop_front() {
            Some(text) => {
                taken.push(text);
                assert(taken@ + pending@ =~= done + waiting);
            },
            None => {},
        }
    }
    assert(taken@ =~= all);
    taken
}

/// Messages typed while a turn runs, on their way into it. Clones share one
/// queue.
pub struct Steering {
    pending: Arc<RwLock<VecDeque<String>, AnyQueue>>,
}

impl Default for Steering {
    fn default() -> (r: Self) {
        Steering { pending: Arc::new(RwLock::new(VecDeque::new(), Ghost(AnyQueue))) }
    }
}

impl Clone for Steering {
    fn clone(&self) -> (r: Self) {
        Steering { pending: self.pending.clone() }
    }
}

impl Steering {
    /// Adds a message and says how many wait now. Others may hold the queue
    /// too, so that all that is certain is that this one waits.
    pub fn push(&self, text: String) -> (r: usize)
        ensures
            r >= 1,
    {
        let (queue, handle) = self.pending.acquire_write();
        let mut queue: VecDeque<String> = queue;
        let waiting: usize = enqueue(&mut queue, text);
        handle.release_write(queue);
        waiting
    }

    /// Takes every waiting message. What that is depends on whoever else
    /// holds the queue.
    pub fn take(&self) -> (r: Vec<String>) {
        let (queue, handle) = self.pending.acquire_write();
        let mut queue: VecDeque<String> = queue;
        let taken: Vec<String> = drain(&mut queue);
        handle.release_write(queue);
        taken
    }
}

// ---------------------------------------------------------------------------
// Turns
// ---------------------------------------------------------------------------

/// A hexadecimal digit.
pub open spec fn hex_digit(n: int) -> char {
    if n < 10 {
        ('0' as int + n) as char
    } else {
        ('a' as int + n - 10) as char
    }
}

/// What a character is inside a JSON string.
pub open spec fn json_escaped(c: char) -> Seq<char> {
    if c == '"' || c == '\\' {
        seq!['\\', c]
    } else if c == '\u{8}' {
        seq!['\\', 'b']
    } else if c == '\t' {
        seq!['\\', 't']
    } else if c == '\n' {
        seq!['\\', 'n']
    } else if c == '\u{c}' {
        seq!['\\', 'f']
    } else if c == '\r' {
        seq!['\\', 'r']
    } else if 31 >= c as int {
        "\\u00"@ + seq![hex_digit(c as int / 16), hex_digit(c as int % 16)]
    } else {
        seq![c]
    }
}

/// What a text is in JSON: each character as it is inside a string, between
/// quotes.
pub open spec fn json_quoted(s: Seq<char>) -> Seq<char> {
    seq!['"'] + s.map_values(|c: char| json_escaped(c)).flatten() + seq!['"']
}

/// Calls `Display` of a `serde_json::Value` that holds the text: a quote, a
/// backslash and the control characters up to the space are escaped, by a letter
/// where JSON has one and else by four hexadecimal digits in lower case, and
/// every other character stands for itself.
#[verifier::external_body]
fn quote_json(s: &str) -> (r: String)
    ensures
        r@ == json_quoted(s@),
{
    serde_json::Value::String(s.to_string()).to_string()
}

/// The result of a call that failed.
pub fn error_result(error: &str) -> (r: String)
    ensures
        r@ == "{\"error\":"@ + json_quoted(error@) + "}"@,
{
    concat3("{\"error\":", &quote_json(error), "}")
}

/// The result of a call that the user did not allow.
pub fn denied_result() -> (r: String)
    ensures
        r@ == "{\"error\":\"User denied permission for this action\"}"@,
{
    String::from_str("{\"error\":\"User denied permission for this action\"}")
}

/// A turn in which the model may call tools.
#[derive(Debug)]
pub struct AgentTurn {
    pub model: String,
    pub effort_level: Option<String>,
    /// How often the model may be asked.
    pub max_iterations: usize,
    /// How often it has been.
    pub iteration: usize,
    /// The last text that it answered with.
    pub final_response: Option<String>,
    /// The calls of its last reply.
    pub calls: Vec<ToolCall>,
    /// How many of them have been answered.
    pub answered: usize,
}

/// How a turn goes on after a reply.
#[derive(Debug, Clone, PartialEq, Eq)]
pub enum TurnStep {
    /// It is over with this error.
    Failed(String),
    /// It is over; the text is the last one that the model answered with.
    Finished(Option<String>),
    /// The calls of the reply come next.
    RunCalls,
}

/// How a call goes on.
#[derive(Debug, Clone, PartialEq, Eq)]
pub enum CallStep {
    /// The user is asked first.
    Ask(ApprovalRequest),
    /// It runs.
    Run { name: String, arguments: String, sandbox: bool },
}

impl AgentTurn {
    pub open spec fn wf(self) -> bool {
        self.iteration <= self.max_iterations && self.answered <= self.calls@.len()
    }

    /// Whether the calls of the last reply are all answered.
    pub open spec fn caught_up(self) -> bool {
        self.answered == self.calls@.len()
    }

    /// Whether a conversation stands where the turn does: behind the reply
    /// whose calls are being answered stands one answer for each call that
    /// has been, in their order and under their ids.
    pub open spec fn in_step(self, messages: Seq<ChatMessage>) -> bool {
        let reply = messages.len() - self.answered - 1;
        &&& reply >= 0
        &&& messages[reply].tool_calls matches Some(calls)
        &&& calls@ == self.calls@
        &&& forall|k: int|
            0 <= k < self.answered ==> is_answer(
                messages[reply + 1 + k],
                #[trigger] self.calls@[k],
            )
    }

    /// Starts a turn; one without a cap on its iterations is refused.
    pub fn start(model: String, effort_level: Option<String>, max_iterations: Option<usize>) -> (r:
        Result<AgentTurn, String>)
        ensures
            r is Ok <==> max_iterations is Some,
            r matches Ok(turn) ==> turn.wf() && turn.caught_up() && turn.model == model
                && turn.effort_level == effort_level && max_iterations == Some(turn.max_iterations)
                && turn.iteration == 0 && turn.final_response is None && turn.calls@.len() == 0,
            r matches Err(e) ==> e@
                == "No max-iterations cap is set. Set one with /max-iterations <n> for this session, or clank max-iterations <n> as the persistent default."@,
    {
        match max_iterations {
            Some(max_iterations) => Ok(
                AgentTurn {
                    model,
                    effort_level,
                    max_iterations,
                    iteration: 0,
                    final_response: None,
                    calls: Vec::new(),
                    answered: 0,
                },
            ),
            None => Err(
                String::from_str(
                    "No max-iterations cap is set. Set one with /max-iterations <n> for this session, or clank max-iterations <n> as the persistent default.",
                ),
            ),
        }
    }

    /// Whether the model may be asked once more; the error says why not.
    pub fn may_continue(&self) -> (r: Result<(), String>)
        ensures
            r is Ok <==> self.iteration < self.max_iterations,
            r matches Err(e) ==> e@ == "Agent exceeded max iterations"@,
    {
        if self.iteration < self.max_iterations {
            Ok(())
        } else {
            Err(String::from_str("Agent exceeded max iterations"))
        }
    }

    /// Starts an iteration: messages typed meanwhile join the conversation as
    /// the user's, and the model is asked.
    pub fn begin_iteration(&mut self, steered: Vec<String>, messages: &mut Vec<ChatMessage>) -> (r:
        Vec<AgentEvent>)
        requires
            old(self).wf(),
            old(self).caught_up(),
            old(self).iteration < old(self).max_iterations,
        ensures
            final(self).wf(),
            *final(self) == (AgentTurn {
                iteration: (old(self).iteration + 1) as usize,
                ..*old(self)
            }),
            joined(old(messages)@, steered@, final(messages)@),
            r@.len() == steered@.len() + 2,
            forall|i: int|
                0 <= i < steered@.len() ==> #[trigger] r@[i] == (AgentEvent::Steered {
                    text: steered@[i],
                }),
            r@[steered@.len() as int] == (AgentEvent::IterationStarted {
                iteration: final(self).iteration,
            }),
            r@[(steered@.len() + 1) as int] == AgentEvent::RequestStarted,
    {
        self.iteration = self.iteration + 1;
        let mut events: Vec<AgentEvent> = Vec::new();
        let ghost before = messages@;
        let mut i: usize = 0;
        assert(before.take(before.len() as int) == before);
        while i < steered.len()
            invariant
                i <= steered@.len(),
                joined(before, steered@.take(i as int), messages@),
                events@.len() == i,
                forall|k: int|
                    0 <= k < i ==> #[trigger] events@[k] == (AgentEvent::Steered {
                        text: steered@[k],
                    }),
            decreases steered@.len() - i,
        {
            let ghost so_far = messages@;
            let text: String = steered[i].clone();
            events.push(AgentEvent::Steered { text: text.clone() });
            let message: ChatMessage = ChatMessage::plain("user", text);
            messages.push(message);
            proof {
                let taken = steered@.take(i + 1);
                assert forall|k: int| 0 <= k < taken.len() implies (
                #[trigger] messages@[before.len() + k]).is_plain("user"@, taken[k]@, None) by {
                    if k < i {
                        assert(messages@[before.len() + k] == so_far[before.len() + k]);
                        assert(taken[k] == steered@.take(i as int)[k]);
                    }
                }
                assert(messages@.take(before.len() as int) =~= before);
            }
            i = i + 1;
        }
        assert(steered@.take(i as int) == steered@);
        events.push(AgentEvent::IterationStarted { iteration: self.iteration });
        events.push(AgentEvent::RequestStarted);
        events
    }

    /// Takes in the model's reply. A text that shows is reported and kept as
    /// the turn's answer so far; a reply without calls ends the turn.
    pub fn reply(&mut self, reply: Result<ChatMessage, String>, messages: &mut Vec<ChatMessage>) -> (
    r: (Vec<AgentEvent>, TurnStep))
        requires
            old(self).wf(),
            old(self).caught_up(),
        ensures
            final(self).wf(),
            match reply {
                Err(e) => {
                    &&& *final(self) == *old(self)
                    &&& final(messages)@ == old(messages)@
                    &&& r.0@ == seq![AgentEvent::RequestFinished]
                    &&& r.1 == TurnStep::Failed(e)
                },
                Ok(message) => {
                    &&& final(messages)@ == old(messages)@.push(message)
                    &&& final(self).iteration == old(self).iteration
                    &&& final(self).max_iterations == old(self).max_iterations
                    &&& final(self).model == old(self).model
                    &&& final(self).effort_level == old(self).effort_level
                    &&& final(self).final_response == if is_visible(message.content) {
                        message.content
                    } else {
                        old(self).final_response
                    }
                    &&& r.0@ == reply_events(
                        message,
                        old(self).model,
                        old(self).effort_level,
                    )
                    &&& if message.calls_tools() {
                        &&& r.1 == TurnStep::RunCalls
                        &&& final(self).answered == 0
                        &&& final(self).in_step(final(messages)@)
                    } else {
                        &&& r.1 == TurnStep::Finished(final(self).final_response)
                        &&& final(self).caught_up()
                    }
                },
            },
    {
        let mut events: Vec<AgentEvent> = Vec::new();
        events.push(AgentEvent::RequestFinished);
        match reply {
            Err(e) => {
                assert(events@ =~= seq![AgentEvent::RequestFinished]);
                (events, TurnStep::Failed(e))
            },
            Ok(message) => {
                let ghost whole = message;
                if message.has_visible_content() {
                    match &message.content {
                        Some(content) => {
                            events.push(
                                AgentEvent::AssistantMessage {
                                    model: self.model.clone(),
                                    effort_level: clone_opt(&self.effort_level),
                                    text: content.clone(),
                                },
                            );
                            self.final_response = Some(content.clone());
                        },
                        None => {},
                    }
                }
                let calls: Vec<ToolCall> = clone_calls(&message.tool_calls);
                let more: bool = message.has_tool_calls();
                messages.push(message);
                self.answered = 0;
                if more {
                    self.calls = calls;
                    assert(events@ =~= reply_events(whole, old(self).model, old(self).effort_level));
                    let ghost now = messages@;
                    assert(now[now.len() - 1] == whole);
                    (events, TurnStep::RunCalls)
                } else {
                    self.calls = Vec::new();
                    events.push(AgentEvent::TurnFinished);
                    assert(events@ =~= reply_events(whole, old(self).model, old(self).effort_level));
                    (events, TurnStep::Finished(clone_opt(&self.final_response)))
                }
            },
        }
    }

    /// The next call of the reply, and whether it asks first.
    pub fn next_call(&self, gates: &SessionGates) -> (r: Option<(AgentEvent, CallStep)>)
        requires
            self.wf(),
        ensures
            r is None <==> self.caught_up(),
            r matches Some((event, step)) ==> {
                let call = self.calls@[self.answered as int];
                &&& event == (AgentEvent::ToolCallStarted {
                    name: call.function.name,
                    arguments: call.function.arguments,
                })
                &&& if asks(call.function.name@, gates.approval) {
                    &&& step matches CallStep::Ask(request)
                    &&& request.tool_name == call.function.name
                    &&& request.category@ == category_text(call.function.name@)
                    &&& request.arguments == call.function.arguments
                } else {
                    step == (CallStep::Run {
                        name: call.function.name,
                        arguments: call.function.arguments,
                        sandbox: gates.sandbox,
                    })
                }
            },
    {
        if self.answered >= self.calls.len() {
            return None;
        }
        let function: &FunctionCall = &self.calls[self.answered].function;
        let event: AgentEvent = AgentEvent::ToolCallStarted {
            name: function.name.clone(),
            arguments: function.arguments.clone(),
        };
        if requires_approval(&function.name, &gates.approval) {
            let request: ApprovalRequest = ApprovalRequest {
                tool_name: function.name.clone(),
                category: get_tool_category(&function.name),
                arguments: function.arguments.clone(),
            };
            Some((event, CallStep::Ask(request)))
        } else {
            Some(
                (
                    event,
                    CallStep::Run {
                        name: function.name.clone(),
                        arguments: function.arguments.clone(),
                        sandbox: gates.sandbox,
                    },
                ),
            )
        }
    }

    /// What follows from the user's answer: an allowed call runs, a denied one
    /// is reported as such.
    pub fn answer(&self, allowed: bool, gates: &SessionGates) -> (r: Result<CallStep, AgentEvent>)
        requires
            self.wf(),
            !self.caught_up(),
        ensures
            ({
                let call = self.calls@[self.answered as int];
                r == if allowed {
                    Ok::<CallStep, AgentEvent>(
                        CallStep::Run {
                            name: call.function.name,
                            arguments: call.function.arguments,
                            sandbox: gates.sandbox,
                        },
                    )
                } else {
                    Err::<CallStep, AgentEvent>(
                        AgentEvent::ToolCallDenied { name: call.function.name },
                    )
                }
            }),
    {
        let function: &FunctionCall = &self.calls[self.answered].function;
        if allowed {
            Ok(
                CallStep::Run {
                    name: function.name.clone(),
                    arguments: function.arguments.clone(),
                    sandbox: gates.sandbox,
                },
            )
        } else {
            Err(AgentEvent::ToolCallDenied { name: function.name.clone() })
        }
    }

    /// Takes in the result of the next call: it joins the conversation as the
    /// answer to that call.
    pub fn finish_call(&mut self, result: String, messages: &mut Vec<ChatMessage>) -> (r:
        AgentEvent)
        requires
            old(self).wf(),
            !old(self).caught_up(),
        ensures
            final(self).wf(),
            *final(self) == (AgentTurn {
                answered: (old(self).answered + 1) as usize,
                ..*old(self)
            }),
            final(messages)@.len() == old(messages)@.len() + 1,
            final(messages)@.drop_last() == old(messages)@,
            final(messages)@.last().is_plain(
                "tool"@,
                result@,
                Some(old(self).calls@[old(self).answered as int].id@),
            ),
            old(self).in_step(old(messages)@) ==> final(self).in_step(final(messages)@),
            r == (AgentEvent::ToolCallCompleted {
                name: old(self).calls@[old(self).answered as int].function.name,
                result,
            }),
    {
        let count: usize = self.calls.len();
        assert(self.answered < count);
        let call: &ToolCall = &self.calls[self.answered];
        let name: String = call.function.name.clone();
        let mut message: ChatMessage = ChatMessage::plain("tool", result.clone());
        message.tool_call_id = Some(call.id.clone());
        let ghost before = messages@;
        messages.push(message);
        assert(messages@.drop_last() =~= before);
        self.answered = self.answered + 1;
        proof {
            if old(self).in_step(before) {
                let reply = before.len() - old(self).answered - 1;
                assert(messages@[reply] == before[reply]);
                assert forall|k: int| 0 <= k < self.answered implies is_answer(
                    messages@[reply + 1 + k],
                    #[trigger] self.calls@[k],
                ) by {
                    if k < old(self).answered {
                        assert(messages@[reply + 1 + k] == before[reply + 1 + k]);
                        assert(is_answer(before[reply + 1 + k], old(self).calls@[k]));
                    }
                }
            }
        }
        AgentEvent::ToolCallCompleted { name, result }
    }
}

/// Whether a message answers a call: it is a tool's, under the call's id.
pub open spec fn is_answer(message: ChatMessage, call: ToolCall) -> bool {
    message.role@ == "tool"@ && message.content is Some && opt_view(message.tool_call_id) == Some(
        call.id@,
    )
}

/// Whether texts have joined a conversation as the user's messages.
pub open spec fn joined(
    before: Seq<ChatMessage>,
    texts: Seq<String>,
    after: Seq<ChatMessage>,
) -> bool {
    &&& after.len() == before.len() + texts.len()
    &&& after.take(before.len() as int) == before
    &&& forall|i: int|
        0 <= i < texts.len() ==> (#[trigger] after[before.len() + i]).is_plain(
            "user"@,
            texts[i]@,
            None,
        )
}

/// What is reported of a reply: its text where that shows, and the end of the
/// turn where it calls no tool.
pub open spec fn reply_events(
    message: ChatMessage,
    model: String,
    effort_level: Option<String>,
) -> Seq<AgentEvent> {
    let said = if is_visible(message.content) {
        seq![
            AgentEvent::AssistantMessage { model, effort_level, text: message.content->0 },
        ]
    } else {
        Seq::empty()
    };
    let ended = if message.calls_tools() {
        Seq::empty()
    } else {
        seq![AgentEvent::TurnFinished]
    };
    seq![AgentEvent::RequestFinished] + said + ended
}

/// The calls of a message, none where it has no list of them.
fn clone_calls(calls: &Option<Vec<ToolCall>>) -> (r: Vec<ToolCall>)
    ensures
        r@ == match calls {
            Some(c) => c@,
            None => Seq::empty(),
        },
{
    let mut out: Vec<ToolCall> = Vec::new();
    match calls {
        Some(c) => {
            let mut i: usize = 0;
            while i < c.len()
                invariant
                    i <= c@.len(),
                    out@ == c@.take(i as int),
                decreases c@.len() - i,
            {
                let copy: ToolCall = ToolCall {
                    id: c[i].id.clone(),
                    call_type: c[i].call_type.clone(),
                    function: FunctionCall {
                        name: c[i].function.name.clone(),
                        arguments: c[i].function.arguments.clone(),
                    },
                };
                out.push(copy);
                i = i + 1;
            }
            assert(c@.take(i as int) == c@);
        },
        None => {},
    }
    out
}

/// What is reported of a reply in a turn without tools: its text where that
/// shows, and the end of the turn.
pub open spec fn chat_events(
    message: ChatMessage,
    model: String,
    effort_level: Option<String>,
) -> Seq<AgentEvent> {
    let said = if is_visible(message.content) {
        seq![
            AgentEvent::AssistantMessage { model, effort_level, text: message.content->0 },
        ]
    } else {
        Seq::empty()
    };
    seq![AgentEvent::RequestFinished] + said + seq![AgentEvent::TurnFinished]
}

/// Takes in the reply of a turn without tools. Only one whose text shows joins
/// the conversation.
pub fn finish_chat_turn(
    model: &String,
    effort_level: &Option<String>,
    reply: Result<ChatMessage, String>,
    messages: &mut Vec<ChatMessage>,
) -> (r: (Vec<AgentEvent>, Result<Option<String>, String>))
    ensures
        match reply {
            Err(e) => {
                &&& final(messages)@ == old(messages)@
                &&& r.0@ == seq![AgentEvent::RequestFinished]
                &&& r.1 == Err::<Option<String>, String>(e)
            },
            Ok(message) => {
                &&& r.0@ == chat_events(message, *model, *effort_level)
                &&& if is_visible(message.content) {
                    &&& final(messages)@ == old(messages)@.push(message)
                    &&& r.1 == Ok::<Option<String>, String>(message.content)
                } else {
                    &&& final(messages)@ == old(messages)@
                    &&& r.1 == Ok::<Option<String>, String>(None)
                }
            },
        },
{
    let mut events: Vec<AgentEvent> = Vec::new();
    events.push(AgentEvent::RequestFinished);
    match reply {
        Err(e) => {
            assert(events@ =~= seq![AgentEvent::RequestFinished]);
            (events, Err(e))
        },
        Ok(message) => {
            let ghost whole = message;
            let mut response: Option<String> = None;
            if message.has_visible_content() {
                match &message.content {
                    Some(content) => {
                        events.push(
                            AgentEvent::AssistantMessage {
                                model: model.clone(),
                                effort_level: clone_opt(effort_level),
                                text: content.clone(),
                            },
                        );
                        response = Some(content.clone());
                    },
                    None => {},
                }
                messages.push(message);
            }
            events.push(AgentEvent::TurnFinished);
            assert(events@ =~= chat_events(whole, *model, *effort_level));
            (events, Ok(response))
        },
    }
}

/// The conversation that a task on its own starts with.
pub fn task_messages(task: &str) -> (r: Vec<ChatMessage>)
    ensures
        r@.len() == 1,
        r@[0].is_plain("user"@, task@, None),
{
    let mut messages: Vec<ChatMessage> = Vec::new();
    messages.push(ChatMessage::plain("user", String::from_str(task)));
    messages
}

/// Whether an event starts or ends a request.
pub open spec fn concerns_a_request(event: AgentEvent) -> bool {
    event is RequestStarted || event is RequestFinished
}

/// Every request that starts is finished exactly once, and before anything
/// else of its reply is reported, with tools or without.
pub proof fn a_request_is_finished_once(
    message: ChatMessage,
    model: String,
    effort_level: Option<String>,
    i: int,
)
    ensures
        reply_events(message, model, effort_level)[0] is RequestFinished,
        chat_events(message, model, effort_level)[0] is RequestFinished,
        0 < i < reply_events(message, model, effort_level).len() ==> !concerns_a_request(
            reply_events(message, model, effort_level)[i],
        ),
        0 < i < chat_events(message, model, effort_level).len() ==> !concerns_a_request(
            chat_events(message, model, effort_level)[i],
        ),
{
}

/// A turn ends with a reply exactly when that calls no tool: only then is its
/// end reported, and as the last thing.
pub proof fn a_turn_ends_with_a_reply_without_calls(
    message: ChatMessage,
    model: String,
    effort_level: Option<String>,
)
    ensures
        (reply_events(message, model, effort_level).last() is TurnFinished) == !message.calls_tools(),
        chat_events(message, model, effort_level).last() is TurnFinished,
{
}

/// Each gate guards the tools of its kind and no other, and what has no gate
/// asks, but for reading a page of the web, which never does.
pub proof fn each_gate_guards_its_tools(tool_name: Seq<char>, approval: ApprovalSettings)
    ensures
        asks("read_file"@, approval) == approval.read_disk,
        asks("list_files"@, approval) == approval.read_disk,
        asks("write_file"@, approval) == approval.write_disk,
        asks("replace_in_file"@, approval) == approval.write_disk,
        asks("run_terminal_command"@, approval) == approval.terminal,
        !asks("web_fetch"@, approval),
        tool_name != "web_fetch"@ && approval.read_disk && approval.write_disk && approval.terminal
            ==> asks(tool_name, approval),
        tool_name != "read_file"@ && tool_name != "list_files"@ && tool_name != "write_file"@
            && tool_name != "replace_in_file"@ && tool_name != "run_terminal_command"@
            && tool_name != "web_fetch"@ ==> asks(tool_name, approval) && category_text(tool_name)
            == "unknown"@,
        category_text("read_file"@) == "read"@,
        category_text("list_files"@) == "read"@,
        category_text("write_file"@) == "write"@,
        category_text("replace_in_file"@) == "write"@,
        category_text("run_terminal_command"@) == "terminal"@,
{
    reveal_strlit("web_fetch");
    reveal_strlit("read_file");
    reveal_strlit("list_files");
    reveal_strlit("write_file");
    reveal_strlit("replace_in_file");
    reveal_strlit("run_terminal_command");
    assert("web_fetch"@[0] == 'w' && "read_file"@[0] == 'r');
    assert("web_fetch"@.len() == 9 && "read_file"@.len() == 9 && "list_files"@.len() == 10
        && "write_file"@.len() == 10 && "replace_in_file"@.len() == 15
        && "run_terminal_command"@.len() == 20);
    assert("list_files"@[0] == 'l' && "write_file"@[0] == 'w');
}

/// What is sent is the whole conversation in its order: only a copy of the
/// agent's prompt is left out, and what else the system said stays.
pub proof fn everything_but_the_prompt_is_sent(
    messages: Seq<ChatMessage>,
    message: ChatMessage,
    more: Seq<ChatMessage>,
)
    ensures
        without_prompt(Seq::empty()).len() == 0,
        without_prompt(messages + more) == without_prompt(messages) + without_prompt(more),
        message.role@ != "system"@ ==> without_prompt(messages.push(message)) == without_prompt(
            messages,
        ).push(message),
        opt_view(message.content) != Some(AGENT_CHAT_SYSTEM_PROMPT@) ==> without_prompt(
            messages.push(message),
        ) == without_prompt(messages).push(message),
        message.role@ == "system"@ && opt_view(message.content) == Some(AGENT_CHAT_SYSTEM_PROMPT@)
            ==> without_prompt(messages.push(message)) == without_prompt(messages),
    decreases more.len(),
{
    assert(messages.push(message).drop_last() =~= messages);
    if more.len() == 0 {
        assert(messages + more =~= messages);
        assert(without_prompt(messages) + without_prompt(more) =~= without_prompt(messages));
    } else {
        everything_but_the_prompt_is_sent(messages, message, more.drop_last());
        assert((messages + more).drop_last() =~= messages + more.drop_last());
        assert(without_prompt(messages + more) =~= without_prompt(messages) + without_prompt(more));
    }
}

/// A turn with tools is sent with the prompt in front and the conversation
/// behind it, and one without tools as the conversation alone.
pub proof fn what_is_sent_is_the_conversation(
    sent: Seq<ChatMessage>,
    original: Seq<ChatMessage>,
    agentic: bool,
)
    requires
        is_normalized(sent, original, agentic),
        forall|i: int| 0 <= i < original.len() ==> (#[trigger] original[i]).role@ != "system"@,
    ensures
        !agentic ==> sent == original,
        agentic ==> sent.len() == original.len() + 1 && sent[0].role@ == "system"@ && opt_view(
            sent[0].content,
        ) == Some(AGENT_CHAT_SYSTEM_PROMPT@) && sent.skip(1) == original,
{
    assert forall|i: int| 0 <= i < original.len() implies !is_prompt(#[trigger] original[i]) by {}
    lemma_without_prompt_keeps_the_rest(original);
}

/// A reply is reported as it was written, once and only where it shows
/// anything; the request is over before that, and the turn behind it exactly
/// where no tool is called.
pub proof fn a_reply_is_reported_as_it_was_written(
    message: ChatMessage,
    model: String,
    effort_level: Option<String>,
)
    ensures
        ({
            let events = reply_events(message, model, effort_level);
            &&& events.len() > 0 && events[0] is RequestFinished
            &&& forall|i: int|
                0 < i < events.len() ==> !(#[trigger] events[i] is RequestFinished)
            &&& is_visible(message.content) ==> events.len() > 1 && events[1]
                == (AgentEvent::AssistantMessage {
                model,
                effort_level,
                text: message.content->0,
            })
            &&& !is_visible(message.content) ==> forall|i: int|
                0 <= i < events.len() ==> !(#[trigger] events[i] is AssistantMessage)
            &&& events.last() is TurnFinished <==> !message.calls_tools()
            &&& forall|i: int|
                0 <= i < events.len() - 1 ==> !(#[trigger] events[i] is TurnFinished)
        }),
        message.calls_tools() <==> message.tool_calls is Some && message.tool_calls->0@.len() > 0,
{
}

/// A reply without tools ends its turn, whatever it holds.
pub proof fn a_plain_reply_ends_its_turn(
    message: ChatMessage,
    model: String,
    effort_level: Option<String>,
)
    ensures
        ({
            let events = chat_events(message, model, effort_level);
            &&& events[0] is RequestFinished
            &&& events.last() is TurnFinished
            &&& is_visible(message.content) ==> events.len() == 3 && events[1]
                == (AgentEvent::AssistantMessage {
                model,
                effort_level,
                text: message.content->0,
            })
            &&& !is_visible(message.content) ==> events.len() == 2
        }),
{
}

/// Messages that steer a turn join the conversation behind what was said, each
/// as the user typed it and in the order they came.
pub proof fn steering_joins_in_its_order(
    before: Seq<ChatMessage>,
    texts: Seq<String>,
    after: Seq<ChatMessage>,
)
    requires
        joined(before, texts, after),
    ensures
        after.len() == before.len() + texts.len(),
        forall|i: int| 0 <= i < before.len() ==> #[trigger] after[i] == before[i],
        forall|i: int|
            0 <= i < texts.len() ==> (#[trigger] after[before.len() + i]).role@ == "user"@
                && opt_view(after[before.len() + i].content) == Some(texts[i]@)
                && after[before.len() + i].tool_calls is None,
{
    assert forall|i: int| 0 <= i < before.len() implies #[trigger] after[i] == before[i] by {
        assert(after.take(before.len() as int)[i] == before[i]);
    }
}

/// A call is answered by a message of its own, which names the call.
pub proof fn an_answer_names_its_call(message: ChatMessage, call: ToolCall, other: ToolCall)
    requires
        is_answer(message, call),
        other.id@ != call.id@,
    ensures
        message.role@ == "tool"@,
        message.tool_call_id matches Some(id) && id@ == call.id@,
        !is_answer(message, other),
{
}

} // verus!
