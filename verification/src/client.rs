//! Chat messages, the request that carries them, and the decoding of a
//! streamed reply.

use std::collections::BTreeMap;
use vstd::prelude::*;
use vstd::std_specs::btree::increasing_seq;
use vstd::std_specs::cmp::OrdSpec;
use vstd::std_specs::iter::IteratorSpec;
use vstd::string::*;

use crate::config::{Config, Temperature, DEFAULT_EFFORT_STYLE};
use crate::text::{
    chars_of, concat2, from_utf8_lossy, lossy_utf8, opt_view, same, string_of, string_views,
    strip_prefix, strip_prefix_chars, trim, trim_chars,
};
use crate::tools::ToolDefinition;
use crate::ui::pair_views;

verus! {

broadcast use {vstd::laws_cmp::group_laws_cmp, vstd::std_specs::btree::group_btree_axioms};

/// One message of a conversation.
#[derive(Debug, Clone, PartialEq, Eq)]
pub struct ChatMessage {
    pub role: String,
    pub content: Option<String>,
    pub tool_calls: Option<Vec<ToolCall>>,
    pub tool_call_id: Option<String>,
    /// What the model thought before it answered, as text.
    pub reasoning: Option<String>,
    /// The provider's own record of that, each part as JSON text.
    pub reasoning_details: Option<Vec<String>>,
}

impl Default for ChatMessage {
    fn default() -> (r: Self)
        ensures
            r.role@ == Seq::<char>::empty(),
            r.content is None,
            r.tool_calls is None,
            r.tool_call_id is None,
            r.reasoning is None,
            r.reasoning_details is None,
    {
        ChatMessage {
            role: String::new(),
            content: None,
            tool_calls: None,
            tool_call_id: None,
            reasoning: None,
            reasoning_details: None,
        }
    }
}

/// A call of a tool that the model asked for.
#[derive(Debug, Clone, PartialEq, Eq)]
pub struct ToolCall {
    pub id: String,
    pub call_type: String,
    pub function: FunctionCall,
}

/// The tool's name and its arguments as JSON text.
#[derive(Debug, Clone, PartialEq, Eq)]
pub struct FunctionCall {
    pub name: String,
    pub arguments: String,
}

/// The only kind of tool call there is.
pub fn function_call_type() -> (r: String)
    ensures
        r@ == "function"@,
{
    String::from_str("function")
}

/// Whether a text shows anything but white space.
pub open spec fn is_visible(content: Option<String>) -> bool {
    match content {
        Some(c) => trim(c@).len() > 0,
        None => false,
    }
}

fn visible(content: &Option<String>) -> (r: bool)
    ensures
        r == is_visible(*content),
{
    match content {
        Some(c) => {
            let chars: Vec<char> = chars_of(c);
            trim_chars(&chars).len() > 0
        },
        None => false,
    }
}

impl ChatMessage {
    /// Whether the message asks for at least one tool call.
    pub open spec fn calls_tools(self) -> bool {
        match self.tool_calls {
            Some(calls) => calls@.len() > 0,
            None => false,
        }
    }

    /// A message with nothing but a role, a text and perhaps the id of the
    /// call that it answers.
    pub open spec fn is_plain(
        self,
        role: Seq<char>,
        content: Seq<char>,
        tool_call_id: Option<Seq<char>>,
    ) -> bool {
        &&& self.role@ == role
        &&& self.content matches Some(c)
        &&& c@ == content
        &&& self.tool_calls is None
        &&& opt_view(self.tool_call_id) == tool_call_id
        &&& self.reasoning is None
        &&& self.reasoning_details is None
    }

    /// Whether the message has a text that shows.
    pub fn has_visible_content(&self) -> (r: bool)
        ensures
            r == is_visible(self.content),
    {
        visible(&self.content)
    }

    /// Whether the message asks for a tool call; an empty list is none.
    pub fn has_tool_calls(&self) -> (r: bool)
        ensures
            r == self.calls_tools(),
    {
        match &self.tool_calls {
            Some(calls) => calls.len() > 0,
            None => false,
        }
    }

    /// What the model thought, where that shows anything.
    pub fn thinking_text(&self) -> (r: Option<String>)
        ensures
            r == if is_visible(self.reasoning) {
                self.reasoning
            } else {
                None
            },
    {
        if visible(&self.reasoning) {
            crate::text::clone_opt(&self.reasoning)
        } else {
            None
        }
    }

    /// A message with the given role and text.
    pub fn plain(role: &str, content: String) -> (r: Self)
        ensures
            r.is_plain(role@, content@, None),
            r.content == Some(content),
    {
        ChatMessage {
            role: String::from_str(role),
            content: Some(content),
            tool_calls: None,
            tool_call_id: None,
            reasoning: None,
            reasoning_details: None,
        }
    }
}

/// A request for a completion.
#[derive(Debug)]
pub struct ChatRequest {
    pub model: String,
    pub messages: Vec<ChatMessage>,
    pub tools: Option<Vec<ToolDefinition>>,
    pub temperature: Option<Temperature>,
    pub tool_choice: Option<String>,
    pub reasoning_effort: Option<String>,
    pub reasoning: Option<ReasoningEffort>,
    pub stream: Option<bool>,
}

/// The effort level in its nested form.
#[derive(Debug)]
pub struct ReasoningEffort {
    pub effort: String,
}

/// A reply that came in one piece.
#[derive(Debug)]
pub struct ChatResponse {
    pub choices: Vec<Choice>,
}

#[derive(Debug)]
pub struct Choice {
    pub message: ChatMessage,
}

/// What a streamed reply yields: texts as they come, then the message.
#[derive(Debug, Clone)]
pub enum StreamEvent {
    Content(String),
    Done(ChatMessage),
}

/// The models that a provider offers.
#[derive(Debug)]
pub struct ModelList {
    pub data: Vec<Model>,
}

#[derive(Debug)]
pub struct Model {
    pub id: String,
}

/// The style that the effort level is sent in.
pub open spec fn effort_style(config: Config) -> Seq<char> {
    match config.effort_style {
        Some(s) => s@,
        None => DEFAULT_EFFORT_STYLE@,
    }
}

/// The request for one completion. The effort level is sent flat or nested as
/// the configuration has it, and not at all in any other style; tools come
/// with the choice left to the model.
pub fn build_request(
    config: &Config,
    model: String,
    messages: Vec<ChatMessage>,
    temperature: Option<Temperature>,
    tools: Option<Vec<ToolDefinition>>,
    effort_level: Option<String>,
    stream: bool,
) -> (r: ChatRequest)
    ensures
        r.model == model,
        r.messages == messages,
        r.tools == tools,
        r.temperature == temperature,
        tools is Some ==> r.tool_choice is Some && r.tool_choice->0@ == "auto"@,
        tools is None ==> r.tool_choice is None,
        r.reasoning_effort == if effort_style(*config) == "flat"@ {
            effort_level
        } else {
            None
        },
        match r.reasoning {
            Some(nested) => effort_style(*config) == "nested"@ && effort_level == Some(
                nested.effort,
            ),
            None => effort_style(*config) != "nested"@ || effort_level is None,
        },
        r.stream == if stream {
            Some(true)
        } else {
            None
        },
{
    let style: &str = match &config.effort_style {
        Some(s) => s.as_str(),
        None => DEFAULT_EFFORT_STYLE,
    };
    let flat: bool = same(style, "flat");
    let nested: bool = same(style, "nested");
    proof {
        reveal_strlit("flat");
        reveal_strlit("nested");
        assert("flat"@.len() != "nested"@.len());
    }
    let (reasoning_effort, reasoning): (Option<String>, Option<ReasoningEffort>) =
        match effort_level {
        Some(effort) => {
            if flat {
                (Some(effort), None)
            } else if nested {
                (None, Some(ReasoningEffort { effort }))
            } else {
                (None, None)
            }
        },
        None => (None, None),
    };
    let tool_choice: Option<String> = if tools.is_some() {
        Some(String::from_str("auto"))
    } else {
        None
    };
    ChatRequest {
        model,
        messages,
        tools,
        temperature,
        tool_choice,
        reasoning_effort,
        reasoning,
        stream: if stream {
            Some(true)
        } else {
            None
        },
    }
}

/// Where completions are asked for.
pub fn completions_url(config: &Config) -> (r: String)
    ensures
        r@ == config.base_url@ + "/chat/completions"@,
{
    concat2(&config.base_url, "/chat/completions")
}

/// Where the models are listed.
pub fn models_url(config: &Config) -> (r: String)
    ensures
        r@ == config.base_url@ + "/models"@,
{
    concat2(&config.base_url, "/models")
}

/// The value of the `Authorization` header.
pub fn authorization(api_key: &str) -> (r: String)
    ensures
        r@ == "Bearer "@ + api_key@,
{
    concat2("Bearer ", api_key)
}

/// What it takes to talk to a provider.
#[derive(Debug, Clone)]
pub struct Client {
    pub config: Config,
    pub api_key: String,
}

/// What every request carries: the key, and what is configured beside it.
pub open spec fn header_views(client: Client) -> Seq<(Seq<char>, Seq<char>)> {
    seq![("Authorization"@, "Bearer "@ + client.api_key@)] + pair_views(
        client.config.extra_headers@,
    )
}

impl Client {
    /// A client for a configuration, given the key that the keychain holds.
    pub fn new(config: Config, api_key: Option<String>) -> (r: Result<Self, String>)
        ensures
            match api_key {
                Some(key) => r == Ok::<Self, String>(Client { config, api_key: key }),
                None => r matches Err(e) && e@
                    == "API key not configured. Run: comms login"@,
            },
    {
        match api_key {
            Some(key) => Ok(Client { config, api_key: key }),
            None => Err(String::from_str("API key not configured. Run: comms login")),
        }
    }

    /// Whether replies should stream.
    pub fn streaming_enabled(&self) -> (r: bool)
        ensures
            r == self.config.stream,
    {
        self.config.stream
    }

    /// The names and values of the headers that every request carries.
    pub fn headers(&self) -> (r: Vec<(String, String)>)
        ensures
            pair_views(r@) == header_views(*self),
    {
        let mut headers: Vec<(String, String)> = Vec::new();
        headers.push((String::from_str("Authorization"), authorization(&self.api_key)));
        let extra: &Vec<(String, String)> = &self.config.extra_headers;
        let ghost target = header_views(*self);
        assert(pair_views(headers@) =~= target.take(1));
        let mut i: usize = 0;
        while i < extra.len()
            invariant
                i <= extra@.len(),
                extra@ == self.config.extra_headers@,
                target == header_views(*self),
                pair_views(headers@) == target.take(1 + i),
            decreases extra@.len() - i,
        {
            let ghost before = pair_views(headers@);
            let name: String = extra[i].0.clone();
            let value: String = extra[i].1.clone();
            headers.push((name, value));
            assert(pair_views(headers@) =~= before.push((name@, value@)));
            assert(target[1 + i] == pair_views(extra@)[i as int]);
            assert(target.take(2 + i) =~= target.take(1 + i).push(target[1 + i]));
            i = i + 1;
        }
        assert(target.take(1 + i) =~= target);
        headers
    }
}

/// What is reported when the provider answers with a failure.
pub fn api_error(body: &str) -> (r: String)
    ensures
        r@ == "API error: "@ + body@,
{
    concat2("API error: ", body)
}

/// The message of a reply that came in one piece: its first choice's.
pub fn first_choice(response: ChatResponse) -> (r: Result<ChatMessage, String>)
    ensures
        r is Ok <==> response.choices@.len() > 0,
        r matches Ok(m) ==> m == response.choices@[0].message,
        r matches Err(e) ==> e@ == "Provider returned no choices"@,
{
    let mut choices: Vec<Choice> = response.choices;
    if choices.len() == 0 {
        Err(String::from_str("Provider returned no choices"))
    } else {
        let first: Choice = choices.remove(0);
        Ok(first.message)
    }
}

/// The message of a streamed reply: the last one that the stream yielded.
pub fn assembled_message(assembled: Option<ChatMessage>) -> (r: Result<ChatMessage, String>)
    ensures
        r is Ok <==> assembled is Some,
        r matches Ok(m) ==> assembled == Some(m),
        r matches Err(e) ==> e@ == "Response stream ended without a message"@,
{
    match assembled {
        Some(m) => Ok(m),
        None => Err(String::from_str("Response stream ended without a message")),
    }
}

/// The ids of the listed models, in their order.
pub fn model_ids(list: ModelList) -> (r: Vec<String>)
    ensures
        r@ == list.data@.map_values(|m: Model| m.id),
{
    let mut ids: Vec<String> = Vec::new();
    let data: Vec<Model> = list.data;
    let mut i: usize = 0;
    while i < data.len()
        invariant
            i <= data.len(),
            ids@ == data@.take(i as int).map_values(|m: Model| m.id),
        decreases data.len() - i,
    {
        ids.push(data[i].id.clone());
        assert(ids@ =~= data@.take(i + 1).map_values(|m: Model| m.id));
        i = i + 1;
    }
    assert(data@.take(i as int) == data@);
    ids
}

// ---------------------------------------------------------------------------
// Server-sent events
// ---------------------------------------------------------------------------

/// The pieces of a byte stream between its line feeds.
pub open spec fn byte_lines(b: Seq<u8>) -> Seq<Seq<u8>>
    decreases b.len(),
{
    if b.len() == 0 {
        seq![Seq::empty()]
    } else {
        let before = byte_lines(b.drop_last());
        if b.last() == 10 {
            before.push(Seq::empty())
        } else {
            before.drop_last().push(before.last().push(b.last()))
        }
    }
}

/// The lines that a byte stream has completed.
pub open spec fn complete_lines(b: Seq<u8>) -> Seq<Seq<u8>> {
    byte_lines(b).drop_last()
}

/// The line that it has begun and not completed.
pub open spec fn open_line(b: Seq<u8>) -> Seq<u8> {
    byte_lines(b).last()
}

pub proof fn lemma_byte_lines_nonempty(b: Seq<u8>)
    ensures
        byte_lines(b).len() > 0,
    decreases b.len(),
{
    if b.len() > 0 {
        lemma_byte_lines_nonempty(b.drop_last());
    }
}

/// A text without the carriage returns at its end.
pub open spec fn without_returns(s: Seq<char>) -> Seq<char>
    decreases s.len(),
{
    if s.len() > 0 && s.last() == '\r' {
        without_returns(s.drop_last())
    } else {
        s
    }
}

/// What a line carries: a data field's value, trimmed.
pub open spec fn line_payload(line: Seq<char>) -> Option<Seq<char>> {
    match strip_prefix(without_returns(line), "data:"@) {
        Some(rest) => Some(trim(rest)),
        None => None,
    }
}

/// What the lines carry, in their order.
pub open spec fn payloads(lines: Seq<Seq<u8>>) -> Seq<Seq<char>>
    decreases lines.len(),
{
    if lines.len() == 0 {
        Seq::empty()
    } else {
        let before = payloads(lines.drop_last());
        match line_payload(lossy_utf8(lines.last())) {
            Some(p) => before.push(p),
            None => before,
        }
    }
}

/// The value of a line's data field.
pub fn payload_of_line(line: &str) -> (r: Option<String>)
    ensures
        opt_view(r) == line_payload(line@),
{
    let chars: Vec<char> = chars_of(line);
    let mut n: usize = chars.len();
    assert(chars@.take(n as int) == line@);
    while n > 0 && chars[n - 1] == '\r'
        invariant
            n <= chars.len(),
            without_returns(line@) == without_returns(chars@.take(n as int)),
        decreases n,
    {
        assert(chars@.take(n as int).drop_last() == chars@.take(n - 1));
        n = n - 1;
    }
    let kept: &[char] = vstd::slice::slice_subrange(&chars, 0, n);
    assert(kept@ == chars@.take(n as int));
    match strip_prefix_chars(kept, "data:") {
        Some(rest) => Some(string_of(trim_chars(rest))),
        None => None,
    }
}

/// Collects the bytes of an event stream and hands out what its complete
/// lines carry. A line is decoded only once it is complete, so that a
/// character may be split between two chunks.
#[derive(Debug)]
pub struct SseDecoder {
    pub buf: Vec<u8>,
}

impl Default for SseDecoder {
    fn default() -> (r: Self)
        ensures
            r.buf@.len() == 0,
    {
        SseDecoder { buf: Vec::new() }
    }
}

impl SseDecoder {
    /// Takes in more bytes.
    pub fn push_bytes(&mut self, bytes: &[u8])
        ensures
            final(self).buf@ == old(self).buf@ + bytes@,
    {
        let mut i: usize = 0;
        while i < bytes.len()
            invariant
                i <= bytes.len(),
                self.buf@ == old(self).buf@ + bytes@.take(i as int),
            decreases bytes.len() - i,
        {
            self.buf.push(bytes[i]);
            assert(self.buf@ =~= old(self).buf@ + bytes@.take(i + 1));
            i = i + 1;
        }
        assert(bytes@.take(i as int) == bytes@);
    }

    /// Hands out what the complete lines carry, and keeps the incomplete one.
    pub fn drain_payloads(&mut self) -> (r: Vec<String>)
        ensures
            string_views(r@) == payloads(complete_lines(old(self).buf@)),
            final(self).buf@ == open_line(old(self).buf@),
    {
        let mut found: Vec<String> = Vec::new();
        let mut line: Vec<u8> = Vec::new();
        let ghost mut lines: Seq<Seq<u8>> = Seq::empty();
        let mut i: usize = 0;
        assert(self.buf@.take(0) == Seq::<u8>::empty());
        assert(lines.push(line@) == byte_lines(self.buf@.take(0)));
        assert(string_views(found@) == payloads(lines));
        while i < self.buf.len()
            invariant
                i <= self.buf@.len(),
                self.buf@ == old(self).buf@,
                lines.push(line@) == byte_lines(self.buf@.take(i as int)),
                string_views(found@) == payloads(lines),
            decreases self.buf@.len() - i,
        {
            let b: u8 = self.buf[i];
            assert(self.buf@.take(i + 1).drop_last() == self.buf@.take(i as int));
            assert(lines.push(line@).drop_last() == lines);
            if b == 10 {
                let decoded: String = from_utf8_lossy(&line);
                let ghost before = string_views(found@);
                let ghost all = lines.push(line@);
                assert(all.drop_last() == lines);
                match payload_of_line(&decoded) {
                    Some(p) => {
                        found.push(p);
                        assert(string_views(found@) == before.push(p@));
                    },
                    None => {},
                }
                proof {
                    lines = all;
                }
                line = Vec::new();
            } else {
                line.push(b);
            }
            i = i + 1;
        }
        assert(self.buf@.take(i as int) == self.buf@);
        assert(lines.push(line@).drop_last() == lines);
        self.buf = line;
        found
    }
}

proof fn lemma_byte_lines_of_sum(a: Seq<u8>, b: Seq<u8>)
    ensures
        complete_lines(a + b) == complete_lines(a) + complete_lines(open_line(a) + b),
        open_line(a + b) == open_line(open_line(a) + b),
    decreases b.len(),
{
    lemma_byte_lines_nonempty(a);
    let rest = open_line(a);
    lemma_byte_lines_nonempty(rest + b);
    lemma_byte_lines_nonempty(a + b);
    if b.len() == 0 {
        assert(a + b == a);
        assert(rest + b == rest);
        lemma_open_line_has_no_feed(a);
        lemma_one_line(rest);
        assert(complete_lines(rest) == Seq::<Seq<u8>>::empty());
        assert(complete_lines(a) + Seq::<Seq<u8>>::empty() == complete_lines(a));
    } else {
        let c = b.drop_last();
        lemma_byte_lines_of_sum(a, c);
        lemma_byte_lines_nonempty(rest + c);
        lemma_byte_lines_nonempty(a + c);
        assert((a + b).drop_last() == a + c);
        assert((rest + b).drop_last() == rest + c);
        assert((a + b).last() == b.last());
        assert((rest + b).last() == b.last());
        if b.last() == 10 {
            assert(byte_lines(a + b).drop_last() == byte_lines(a + c));
            assert(byte_lines(rest + b).drop_last() == byte_lines(rest + c));
            assert(byte_lines(a + c) == complete_lines(a + c).push(open_line(a + c)));
            assert(byte_lines(rest + c) == complete_lines(rest + c).push(open_line(rest + c)));
            assert(complete_lines(a + b) =~= complete_lines(a) + complete_lines(rest + b));
        } else {
            assert(byte_lines(a + b).drop_last() == complete_lines(a + c));
            assert(byte_lines(rest + b).drop_last() == complete_lines(rest + c));
        }
    }
}

proof fn lemma_open_line_has_no_feed(b: Seq<u8>)
    ensures
        !open_line(b).contains(10u8),
    decreases b.len(),
{
    lemma_byte_lines_nonempty(b);
    if b.len() > 0 {
        lemma_open_line_has_no_feed(b.drop_last());
        lemma_byte_lines_nonempty(b.drop_last());
        if b.last() != 10 {
            let before = open_line(b.drop_last());
            assert(open_line(b) == before.push(b.last()));
            assert forall|i: int| 0 <= i < open_line(b).len() implies #[trigger] open_line(b)[i]
                != 10 by {
                if i < before.len() {
                    assert(before.contains(before[i]));
                }
            }
        }
    }
}

proof fn lemma_one_line(b: Seq<u8>)
    requires
        !b.contains(10u8),
    ensures
        byte_lines(b) == seq![b],
    decreases b.len(),
{
    if b.len() == 0 {
        assert(b == Seq::<u8>::empty());
    } else {
        assert(b.contains(b.last())) by {
            assert(b[b.len() - 1] == b.last());
        }
        assert forall|i: int| 0 <= i < b.drop_last().len() implies #[trigger] b.drop_last()[i]
            != 10 by {
            assert(b.contains(b[i]));
        }
        lemma_one_line(b.drop_last());
        assert(b == b.drop_last().push(b.last()));
        assert(byte_lines(b) =~= seq![b]);
    }
}

proof fn lemma_payloads_of_sum(a: Seq<Seq<u8>>, b: Seq<Seq<u8>>)
    ensures
        payloads(a + b) == payloads(a) + payloads(b),
    decreases b.len(),
{
    if b.len() == 0 {
        assert(a + b == a);
        assert(payloads(a) + payloads(b) == payloads(a));
    } else {
        lemma_payloads_of_sum(a, b.drop_last());
        assert((a + b).drop_last() == a + b.drop_last());
        assert((a + b).last() == b.last());
        assert(payloads(a + b) =~= payloads(a) + payloads(b));
    }
}

/// How a stream is cut into chunks makes no difference: draining after the
/// first part and again after the second hands out, together, what draining
/// once after both hands out, and the same incomplete line stays behind.
pub proof fn decoding_does_not_depend_on_the_chunks(first: Seq<u8>, second: Seq<u8>)
    ensures
        payloads(complete_lines(first)) + payloads(
            complete_lines(open_line(first) + second),
        ) == payloads(complete_lines(first + second)),
        open_line(open_line(first) + second) == open_line(first + second),
{
    lemma_byte_lines_of_sum(first, second);
    lemma_payloads_of_sum(complete_lines(first), complete_lines(open_line(first) + second));
}

/// Draining a second time, with nothing new, hands out nothing.
pub proof fn draining_twice_hands_out_nothing_new(b: Seq<u8>)
    ensures
        payloads(complete_lines(open_line(b))) == Seq::<Seq<char>>::empty(),
        open_line(open_line(b)) == open_line(b),
{
    lemma_open_line_has_no_feed(b);
    lemma_one_line(open_line(b));
    assert(complete_lines(open_line(b)) == Seq::<Seq<u8>>::empty());
}

/// What is to be done with a payload.
#[derive(Debug, Clone, Copy, PartialEq, Eq, Structural)]
pub enum PayloadStep {
    /// The reply is complete.
    Finish,
    /// Nothing in it.
    Skip,
    /// It holds a chunk of the reply, as JSON.
    Parse,
}

/// What is to be done with a payload.
pub fn payload_step(payload: &str) -> (r: PayloadStep)
    ensures
        r == if payload@ == "[DONE]"@ {
            PayloadStep::Finish
        } else if payload@.len() == 0 {
            PayloadStep::Skip
        } else {
            PayloadStep::Parse
        },
{
    if same(payload, "[DONE]") {
        PayloadStep::Finish
    } else if payload.is_empty() {
        PayloadStep::Skip
    } else {
        PayloadStep::Parse
    }
}

// ---------------------------------------------------------------------------
// Assembling a streamed reply
// ---------------------------------------------------------------------------

/// One chunk of a streamed reply.
#[derive(Debug)]
pub struct StreamChunk {
    pub choices: Vec<StreamChoice>,
}

#[derive(Debug)]
pub struct StreamChoice {
    pub delta: Delta,
}

/// What a choice adds.
#[derive(Debug)]
pub struct Delta {
    pub content: Option<String>,
    pub tool_calls: Option<Vec<ToolCallDelta>>,
}

/// What is added to the tool call with an index.
#[derive(Debug)]
pub struct ToolCallDelta {
    pub index: u32,
    pub id: Option<String>,
    pub function: Option<FunctionDelta>,
}

#[derive(Debug)]
pub struct FunctionDelta {
    pub name: Option<String>,
    pub arguments: Option<String>,
}

/// A tool call as far as it has arrived.
#[derive(Debug)]
pub struct PartialToolCall {
    pub id: String,
    pub name: String,
    pub arguments: String,
}

/// A tool call as far as it has arrived.
pub struct PartialView {
    pub id: Seq<char>,
    pub name: Seq<char>,
    pub arguments: Seq<char>,
}

impl View for PartialToolCall {
    type V = PartialView;

    open spec fn view(&self) -> PartialView {
        PartialView { id: self.id@, name: self.name@, arguments: self.arguments@ }
    }
}

/// A tool call of which nothing has arrived.
pub open spec fn nothing_yet() -> PartialView {
    PartialView { id: Seq::empty(), name: Seq::empty(), arguments: Seq::empty() }
}

/// A call's name once another fragment of it has come: a fragment that
/// repeats the whole name adds nothing.
pub open spec fn grown_name(name: Seq<char>, fragment: Seq<char>) -> Seq<char> {
    if name.len() == 0 {
        fragment
    } else if name == fragment {
        name
    } else {
        name + fragment
    }
}

/// A call once a delta has been added: a new id replaces the old one, the
/// name grows, and the arguments are appended.
pub open spec fn grown(call: PartialView, delta: ToolCallDelta) -> PartialView {
    let id = match delta.id {
        Some(s) => s@,
        None => call.id,
    };
    match delta.function {
        Some(f) => PartialView {
            id,
            name: match f.name {
                Some(s) => grown_name(call.name, s@),
                None => call.name,
            },
            arguments: match f.arguments {
                Some(s) => call.arguments + s@,
                None => call.arguments,
            },
        },
        None => PartialView { id, ..call },
    }
}

/// The calls once a delta has been added to the one with its index.
pub open spec fn with_delta(calls: Map<u32, PartialView>, delta: ToolCallDelta) -> Map<
    u32,
    PartialView,
> {
    let before = if calls.contains_key(delta.index) {
        calls[delta.index]
    } else {
        nothing_yet()
    };
    calls.insert(delta.index, grown(before, delta))
}

/// The calls once deltas have been added in their order.
pub open spec fn with_deltas(calls: Map<u32, PartialView>, deltas: Seq<ToolCallDelta>) -> Map<
    u32,
    PartialView,
>
    decreases deltas.len(),
{
    if deltas.len() == 0 {
        calls
    } else {
        with_delta(with_deltas(calls, deltas.drop_last()), deltas.last())
    }
}

/// The deltas of one choice.
pub open spec fn choice_deltas(choice: StreamChoice) -> Seq<ToolCallDelta> {
    match choice.delta.tool_calls {
        Some(d) => d@,
        None => Seq::empty(),
    }
}

/// The text of one choice.
pub open spec fn choice_text(choice: StreamChoice) -> Seq<char> {
    match choice.delta.content {
        Some(s) => s@,
        None => Seq::empty(),
    }
}

/// The text of all choices, one behind the other.
pub open spec fn choices_text(choices: Seq<StreamChoice>) -> Seq<char>
    decreases choices.len(),
{
    if choices.len() == 0 {
        Seq::empty()
    } else {
        choices_text(choices.drop_last()) + choice_text(choices.last())
    }
}

/// The calls once the deltas of all choices have been added.
pub open spec fn with_choices(calls: Map<u32, PartialView>, choices: Seq<StreamChoice>) -> Map<
    u32,
    PartialView,
>
    decreases choices.len(),
{
    if choices.len() == 0 {
        calls
    } else {
        with_deltas(with_choices(calls, choices.drop_last()), choice_deltas(choices.last()))
    }
}

/// Puts the chunks of a streamed reply together.
#[derive(Debug)]
pub struct StreamAccumulator {
    pub content: String,
    /// The calls by their index.
    pub tool_calls: BTreeMap<u32, PartialToolCall>,
}

/// Whether each number is greater than the one before it.
pub open spec fn rising(s: Seq<u32>) -> bool {
    forall|i: int, j: int| 0 <= i < j < s.len() ==> (#[trigger] s[i]) < (#[trigger] s[j])
}

/// Whether numbers are the keys of a map's entries, in their order.
spec fn are_keys_of(s: Seq<u32>, entries: Seq<(&u32, &PartialToolCall)>) -> bool {
    &&& s.len() == entries.len()
    &&& forall|i: int| 0 <= i < entries.len() ==> s[i] == *(#[trigger] entries[i]).0
}

/// The indices of calls, in their order.
fn indices_of(calls: &BTreeMap<u32, PartialToolCall>) -> (r: Vec<u32>)
    ensures
        rising(r@),
        forall|k: u32| #[trigger] r@.contains(k) <==> calls@.contains_key(k),
{
    let mut indices: Vec<u32> = Vec::new();
    let entries = calls.iter();
    let ghost all = entries.remaining();
    assert(exists|s: Seq<u32>| #[trigger] increasing_seq(s) && are_keys_of(s, all));
    let ghost keys = choose|s: Seq<u32>| #[trigger] increasing_seq(s) && are_keys_of(s, all);
    for entry in it: entries
        invariant
            it.seq() == all,
            indices@.len() == it.index(),
            forall|i: int| 0 <= i < indices@.len() ==> indices@[i] == *it.seq()[i].0,
    {
        indices.push(*entry.0);
    }
    proof {
        assert(indices@ =~= keys);
        assert(vstd::laws_cmp::obeys_cmp::<u32>());
        assert forall|i: int, j: int| 0 <= i < j < keys.len() implies (#[trigger] keys[i]) < (
        #[trigger] keys[j]) by {
            assert(keys[i].cmp_spec(&keys[j]) is Less);
        }
        assert forall|k: u32| calls@.contains_key(k) implies #[trigger] indices@.contains(k) by {
            assert(all.contains((&k, &calls@[k])));
            let i = choose|i: int| 0 <= i < all.len() && all[i] == (&k, &calls@[k]);
            assert(indices@[i] == k);
        }
        assert forall|k: u32| #[trigger] indices@.contains(k) implies calls@.contains_key(k) by {
            let i = choose|i: int| 0 <= i < indices@.len() && indices@[i] == k;
            assert(calls@.contains_key(*all[i].0));
        }
    }
    indices
}

/// A call once a delta has been added to it.
fn grow(call: PartialToolCall, delta: ToolCallDelta) -> (r: PartialToolCall)
    ensures
        r@ == grown(call@, delta),
{
    let mut call: PartialToolCall = call;
    match delta.id {
        Some(id) => {
            call.id = id;
        },
        None => {},
    }
    match delta.function {
        Some(function) => {
            match function.name {
                Some(name) => {
                    if call.name.as_str().is_empty() {
                        call.name = name;
                    } else if !same(&call.name, &name) {
                        call.name.append(&name);
                    }
                },
                None => {},
            }
            match function.arguments {
                Some(arguments) => {
                    call.arguments.append(&arguments);
                },
                None => {},
            }
        },
        None => {},
    }
    call
}

impl Default for StreamAccumulator {
    fn default() -> (r: Self)
        ensures
            r.content@ == Seq::<char>::empty(),
            r.calls() == Map::<u32, PartialView>::empty(),
    {
        let r: StreamAccumulator = StreamAccumulator {
            content: String::new(),
            tool_calls: BTreeMap::new(),
        };
        assert(r.calls() =~= Map::<u32, PartialView>::empty());
        r
    }
}

impl StreamAccumulator {
    /// The calls by their index.
    pub open spec fn calls(self) -> Map<u32, PartialView> {
        self.tool_calls@.map_values(|call: PartialToolCall| call@)
    }

    fn push_delta(&mut self, delta: ToolCallDelta)
        ensures
            final(self).content == old(self).content,
            final(self).calls() == with_delta(old(self).calls(), delta),
    {
        let index: u32 = delta.index;
        let before: PartialToolCall = match self.tool_calls.remove(&index) {
            Some(call) => call,
            None => PartialToolCall {
                id: String::new(),
                name: String::new(),
                arguments: String::new(),
            },
        };
        assert(!old(self).calls().contains_key(index) ==> before@ == nothing_yet());
        let call: PartialToolCall = grow(before, delta);
        self.tool_calls.insert(index, call);
        assert(self.calls() =~= with_delta(old(self).calls(), delta));
    }

    /// Adds a chunk, and hands out the text that it brought.
    pub fn push_chunk(&mut self, chunk: StreamChunk) -> (r: Option<String>)
        ensures
            final(self).content@ == old(self).content@ + choices_text(chunk.choices@),
            final(self).calls() == with_choices(old(self).calls(), chunk.choices@),
            opt_view(r) == if choices_text(chunk.choices@).len() > 0 {
                Some(choices_text(chunk.choices@))
            } else {
                None
            },
    {
        let mut new_text: String = String::new();
        let mut choices: Vec<StreamChoice> = chunk.choices;
        let ghost all = choices@;
        let ghost mut done: int = 0;
        assert(old(self).content@ + choices_text(all.take(0)) == old(self).content@);
        while choices.len() > 0
            invariant
                0 <= done <= all.len(),
                choices@ == all.skip(done),
                new_text@ == choices_text(all.take(done)),
                self.content@ == old(self).content@ + choices_text(all.take(done)),
                self.calls() == with_choices(old(self).calls(), all.take(done)),
            decreases choices@.len(),
        {
            let choice: StreamChoice = choices.remove(0);
            let ghost text_before = choices_text(all.take(done));
            let ghost calls_before = self.calls();
            assert(choice == all[done]);
            assert(all.take(done + 1).drop_last() == all.take(done));
            assert(all.take(done + 1).last() == choice);
            assert(choices@ == all.skip(done + 1));
            match choice.delta.content {
                Some(content) => {
                    self.content.append(&content);
                    new_text.append(&content);
                },
                None => {},
            }
            assert(self.content@ =~= old(self).content@ + choices_text(all.take(done + 1)));
            match choice.delta.tool_calls {
                Some(deltas) => {
                    let mut deltas: Vec<ToolCallDelta> = deltas;
                    let ghost every = deltas@;
                    let ghost mut d: int = 0;
                    let ghost content = self.content;
                    while deltas.len() > 0
                        invariant
                                        self.content == content,
                            0 <= d <= every.len(),
                            deltas@ == every.skip(d),
                            self.calls() == with_deltas(calls_before, every.take(d)),
                        decreases deltas@.len(),
                    {
                        let delta: ToolCallDelta = deltas.remove(0);
                        assert(every.take(d + 1).drop_last() == every.take(d));
                        assert(every.take(d + 1).last() == delta);
                        assert(deltas@ == every.skip(d + 1));
                        self.push_delta(delta);
                        proof {
                            d = d + 1;
                        }
                    }
                    assert(every.take(d) == every);
                },
                None => {},
            }
            proof {
                done = done + 1;
            }
        }
        assert(all.take(done) == all);
        if new_text.as_str().is_empty() {
            None
        } else {
            Some(new_text)
        }
    }

    /// Adds a payload that was read as a chunk, or reports that it is none.
    pub fn push_payload(&mut self, parsed: Result<StreamChunk, String>) -> (r: Result<
        Option<String>,
        String,
    >)
        ensures
            match parsed {
                Ok(chunk) => {
                    &&& final(self).content@ == old(self).content@ + choices_text(chunk.choices@)
                    &&& final(self).calls() == with_choices(old(self).calls(), chunk.choices@)
                    &&& r matches Ok(text)
                    &&& opt_view(text) == if choices_text(chunk.choices@).len() > 0 {
                        Some(choices_text(chunk.choices@))
                    } else {
                        None
                    }
                },
                Err(e) => {
                    &&& *final(self) == *old(self)
                    &&& r matches Err(message)
                    &&& message@ == "Malformed stream chunk: "@ + e@
                },
            },
    {
        match parsed {
            Ok(chunk) => Ok(self.push_chunk(chunk)),
            Err(e) => Err(concat2("Malformed stream chunk: ", &e)),
        }
    }

    /// The message that the chunks come to: its calls stand in the order of
    /// their index, and an empty text or an empty list is left out.
    pub fn finish(self) -> (r: ChatMessage)
        ensures
            comes_to(self, r),
    {
        let mut calls: Vec<ToolCall> = Vec::new();
        let indices: Vec<u32> = indices_of(&self.tool_calls);
        let mut i: usize = 0;
        while i < indices.len()
            invariant
                i <= indices@.len(),
                calls@.len() == i,
                forall|k: u32| #[trigger] indices@.contains(k) <==> self.tool_calls@.contains_key(k),
                forall|k: int|
                    0 <= k < i ==> is_call_of(#[trigger] calls@[k], self.calls()[indices@[k]]),
            decreases indices@.len() - i,
        {
            assert(indices@.contains(indices@[i as int]));
            match self.tool_calls.get(&indices[i]) {
                Some(partial) => {
                    calls.push(
                        ToolCall {
                            id: partial.id.clone(),
                            call_type: function_call_type(),
                            function: FunctionCall {
                                name: partial.name.clone(),
                                arguments: partial.arguments.clone(),
                            },
                        },
                    );
                },
                None => {
                    assert(false);
                },
            }
            i = i + 1;
        }
        proof {
            assert(lists(calls@, indices@, self.calls()));
            if indices@.len() > 0 {
                assert(indices@.contains(indices@[0]));
                assert(self.calls().contains_key(indices@[0]));
            }
            assert forall|k: u32| indices@.len() == 0 implies !#[trigger] self.calls().contains_key(
                k,
            ) by {
                assert(!indices@.contains(k));
            }
            if indices@.len() == 0 {
                assert(self.calls() =~= Map::<u32, PartialView>::empty());
            }
        }
        let message: ChatMessage = ChatMessage {
            role: String::from_str("assistant"),
            content: if self.content.as_str().is_empty() {
                None
            } else {
                Some(self.content)
            },
            tool_calls: if calls.len() == 0 {
                None
            } else {
                Some(calls)
            },
            tool_call_id: None,
            reasoning: None,
            reasoning_details: None,
        };
        assert(message.tool_calls matches Some(found) ==> lists(found@, indices@, self.calls()));
        message
    }
}

/// Whether a tool call is what a partial one came to.
pub open spec fn is_call_of(call: ToolCall, partial: PartialView) -> bool {
    call.id@ == partial.id && call.call_type@ == "function"@ && call.function.name@ == partial.name
        && call.function.arguments@ == partial.arguments
}

/// Whether tool calls are what partial ones came to, by increasing index.
pub open spec fn lists(
    calls: Seq<ToolCall>,
    indices: Seq<u32>,
    partials: Map<u32, PartialView>,
) -> bool {
    &&& indices.len() == calls.len()
    &&& rising(indices)
    &&& forall|k: u32| #[trigger] indices.contains(k) <==> partials.contains_key(k)
    &&& forall|i: int|
        0 <= i < calls.len() ==> is_call_of(#[trigger] calls[i], partials[indices[i]])
}

/// Whether a message is what an accumulator comes to: its calls stand in the
/// order of their index, and an empty text or an empty list is left out.
pub open spec fn comes_to(acc: StreamAccumulator, message: ChatMessage) -> bool {
    &&& message.role@ == "assistant"@
    &&& message.content == if acc.content@.len() == 0 {
        None
    } else {
        Some(acc.content)
    }
    &&& message.tool_calls is None <==> acc.calls() == Map::<u32, PartialView>::empty()
    &&& message.tool_calls matches Some(calls) ==> exists|indices: Seq<u32>|
        lists(calls@, indices, acc.calls())
    &&& message.tool_call_id is None
    &&& message.reasoning is None
    &&& message.reasoning_details is None
}

/// The text of a whole stream of chunks.
pub open spec fn stream_text(chunks: Seq<StreamChunk>) -> Seq<char>
    decreases chunks.len(),
{
    if chunks.len() == 0 {
        Seq::empty()
    } else {
        stream_text(chunks.drop_last()) + choices_text(chunks.last().choices@)
    }
}

/// The contents that a stream of chunks leads to, one chunk after another.
pub open spec fn content_after(content: Seq<char>, chunks: Seq<StreamChunk>) -> Seq<char>
    decreases chunks.len(),
{
    if chunks.len() == 0 {
        content
    } else {
        content_after(content, chunks.drop_last()) + choices_text(chunks.last().choices@)
    }
}

/// What was handed out while the reply streamed in is, put together, exactly
/// the text of the finished message.
pub proof fn the_streamed_texts_make_up_the_message(chunks: Seq<StreamChunk>)
    ensures
        content_after(Seq::empty(), chunks) == stream_text(chunks),
    decreases chunks.len(),
{
    if chunks.len() > 0 {
        the_streamed_texts_make_up_the_message(chunks.drop_last());
    }
}

/// The deltas of all choices, in the order they came.
pub open spec fn choices_deltas(choices: Seq<StreamChoice>) -> Seq<ToolCallDelta>
    decreases choices.len(),
{
    if choices.len() == 0 {
        Seq::empty()
    } else {
        choices_deltas(choices.drop_last()) + choice_deltas(choices.last())
    }
}

/// The deltas of a whole stream of chunks, in the order they came.
pub open spec fn stream_deltas(chunks: Seq<StreamChunk>) -> Seq<ToolCallDelta>
    decreases chunks.len(),
{
    if chunks.len() == 0 {
        Seq::empty()
    } else {
        stream_deltas(chunks.drop_last()) + choices_deltas(chunks.last().choices@)
    }
}

/// The calls that a stream of chunks leads to, one chunk after another.
pub open spec fn calls_after(chunks: Seq<StreamChunk>) -> Map<u32, PartialView>
    decreases chunks.len(),
{
    if chunks.len() == 0 {
        Map::empty()
    } else {
        with_choices(calls_after(chunks.drop_last()), chunks.last().choices@)
    }
}

/// Picks the deltas of one index.
pub open spec fn has_index(index: u32) -> spec_fn(ToolCallDelta) -> bool {
    |delta: ToolCallDelta| delta.index == index
}

/// Whether a delta of an index has come.
pub open spec fn occurs(deltas: Seq<ToolCallDelta>, index: u32) -> bool {
    exists|i: int| 0 <= i < deltas.len() && (#[trigger] deltas[i]).index == index
}

/// The call that deltas make up, in the order they came.
pub open spec fn joined(deltas: Seq<ToolCallDelta>) -> PartialView
    decreases deltas.len(),
{
    if deltas.len() == 0 {
        nothing_yet()
    } else {
        grown(joined(deltas.drop_last()), deltas.last())
    }
}

/// The fragment of the arguments that a delta brings.
pub open spec fn fragment(delta: ToolCallDelta) -> Seq<char> {
    match delta.function {
        Some(f) => match f.arguments {
            Some(s) => s@,
            None => Seq::empty(),
        },
        None => Seq::empty(),
    }
}

/// The fragments of the arguments, one behind the other.
pub open spec fn fragments(deltas: Seq<ToolCallDelta>) -> Seq<char>
    decreases deltas.len(),
{
    if deltas.len() == 0 {
        Seq::empty()
    } else {
        fragments(deltas.drop_last()) + fragment(deltas.last())
    }
}

/// The arguments of a call are all the fragments of them that came, put
/// together in that order.
pub proof fn the_fragments_make_up_the_arguments(deltas: Seq<ToolCallDelta>)
    ensures
        joined(deltas).arguments == fragments(deltas),
    decreases deltas.len(),
{
    if deltas.len() > 0 {
        the_fragments_make_up_the_arguments(deltas.drop_last());
        assert(joined(deltas).arguments =~= fragments(deltas));
    }
}

/// Over a whole stream each index that occurs comes to one call, made of the
/// deltas of that index alone in the order they came, whatever came in
/// between, and there is no other call.
pub proof fn each_index_comes_to_one_call(chunks: Seq<StreamChunk>)
    ensures
        forall|k: u32| #[trigger]
            calls_after(chunks).contains_key(k) <==> occurs(stream_deltas(chunks), k),
        forall|k: u32|
            occurs(stream_deltas(chunks), k) ==> #[trigger] calls_after(chunks)[k] == joined(
                stream_deltas(chunks).filter(has_index(k)),
            ),
{
    chunks_are_their_deltas(chunks);
    deltas_are_joined_by_index(stream_deltas(chunks));
}

proof fn deltas_follow_each_other(
    calls: Map<u32, PartialView>,
    first: Seq<ToolCallDelta>,
    second: Seq<ToolCallDelta>,
)
    ensures
        with_deltas(calls, first + second) == with_deltas(with_deltas(calls, first), second),
    decreases second.len(),
{
    if second.len() == 0 {
        assert(first + second =~= first);
    } else {
        deltas_follow_each_other(calls, first, second.drop_last());
        assert((first + second).drop_last() =~= first + second.drop_last());
    }
}

proof fn choices_are_their_deltas(calls: Map<u32, PartialView>, choices: Seq<StreamChoice>)
    ensures
        with_choices(calls, choices) == with_deltas(calls, choices_deltas(choices)),
    decreases choices.len(),
{
    if choices.len() > 0 {
        choices_are_their_deltas(calls, choices.drop_last());
        deltas_follow_each_other(
            calls,
            choices_deltas(choices.drop_last()),
            choice_deltas(choices.last()),
        );
    }
}

proof fn chunks_are_their_deltas(chunks: Seq<StreamChunk>)
    ensures
        calls_after(chunks) == with_deltas(Map::empty(), stream_deltas(chunks)),
    decreases chunks.len(),
{
    if chunks.len() > 0 {
        let rest = chunks.drop_last();
        chunks_are_their_deltas(rest);
        choices_are_their_deltas(calls_after(rest), chunks.last().choices@);
        deltas_follow_each_other(
            Map::empty(),
            stream_deltas(rest),
            choices_deltas(chunks.last().choices@),
        );
    }
}

proof fn deltas_are_joined_by_index(deltas: Seq<ToolCallDelta>)
    ensures
        forall|k: u32| #[trigger]
            with_deltas(Map::empty(), deltas).contains_key(k) <==> occurs(deltas, k),
        forall|k: u32|
            occurs(deltas, k) ==> #[trigger] with_deltas(Map::empty(), deltas)[k] == joined(
                deltas.filter(has_index(k)),
            ),
        forall|k: u32|
            !occurs(deltas, k) ==> #[trigger] deltas.filter(has_index(k)) == Seq::<
                ToolCallDelta,
            >::empty(),
    decreases deltas.len(),
{
    reveal(Seq::filter);
    if deltas.len() > 0 {
        let rest = deltas.drop_last();
        let last = deltas.last();
        deltas_are_joined_by_index(rest);
        let before = with_deltas(Map::empty(), rest);
        let after = with_deltas(Map::empty(), deltas);
        assert(after == with_delta(before, last));
        assert forall|k: u32| #[trigger] occurs(deltas, k) == (occurs(rest, k) || last.index == k) by {
            if occurs(deltas, k) {
                let i = choose|i: int| 0 <= i < deltas.len() && (#[trigger] deltas[i]).index == k;
                if i < rest.len() {
                    assert(rest[i].index == k);
                }
            }
            if occurs(rest, k) {
                let i = choose|i: int| 0 <= i < rest.len() && (#[trigger] rest[i]).index == k;
                assert(deltas[i].index == k);
            }
            if last.index == k {
                assert(deltas[deltas.len() - 1].index == k);
            }
        }
        assert forall|k: u32| #[trigger] after.contains_key(k) <==> occurs(deltas, k) by {
            assert(before.contains_key(k) <==> occurs(rest, k));
        }
        assert forall|k: u32| occurs(deltas, k) implies #[trigger] after[k] == joined(
            deltas.filter(has_index(k)),
        ) by {
            let earlier = rest.filter(has_index(k));
            assert(before.contains_key(k) <==> occurs(rest, k));
            if last.index == k {
                assert(deltas.filter(has_index(k)) == earlier.push(last));
                assert(earlier.push(last).drop_last() =~= earlier);
                assert(joined(earlier.push(last)) == grown(joined(earlier), last));
                if occurs(rest, k) {
                    assert(before[k] == joined(earlier));
                } else {
                    assert(joined(earlier) == nothing_yet());
                }
            } else {
                assert(deltas.filter(has_index(k)) == earlier);
                assert(before[k] == joined(earlier));
            }
        }
        assert forall|k: u32| !occurs(deltas, k) implies #[trigger] deltas.filter(has_index(k))
            == Seq::<ToolCallDelta>::empty() by {
            assert(deltas.filter(has_index(k)) == rest.filter(has_index(k)));
        }
    }
}

/// What of a tool call comes in pieces; its type is always the same.
pub open spec fn call_parts(call: ToolCall) -> PartialView {
    PartialView {
        id: call.id@,
        name: call.function.name@,
        arguments: call.function.arguments@,
    }
}

/// Whether a list of calls is, by increasing index, what the deltas of each
/// index that occurs are joined to, its arguments the fragments of them in the
/// order they came.
pub open spec fn calls_by_index(
    calls: Seq<ToolCall>,
    indices: Seq<u32>,
    deltas: Seq<ToolCallDelta>,
) -> bool {
    &&& indices.len() == calls.len()
    &&& rising(indices)
    &&& forall|k: u32| #[trigger] indices.contains(k) <==> occurs(deltas, k)
    &&& forall|i: int|
        0 <= i < calls.len() ==> call_parts(#[trigger] calls[i]) == joined(
            deltas.filter(has_index(indices[i])),
        )
    &&& forall|i: int|
        0 <= i < calls.len() ==> (#[trigger] calls[i]).function.arguments@ == fragments(
            deltas.filter(has_index(indices[i])),
        )
    &&& forall|i: int| 0 <= i < calls.len() ==> (#[trigger] calls[i]).call_type@ == "function"@
}

/// A whole stream comes to one message of the assistant: its text is all the
/// text that came, and its calls are, by increasing index, one for each index
/// that occurs, put together from what came for it. Without any text there is
/// no content, and without any delta there are no calls.
pub proof fn a_stream_comes_to_one_message(
    chunks: Seq<StreamChunk>,
    acc: StreamAccumulator,
    message: ChatMessage,
)
    requires
        acc.content@ == content_after(Seq::empty(), chunks),
        acc.calls() == calls_after(chunks),
        comes_to(acc, message),
    ensures
        message.role@ == "assistant"@,
        message.tool_call_id is None,
        opt_view(message.content) == if stream_text(chunks).len() == 0 {
            None
        } else {
            Some(stream_text(chunks))
        },
        message.tool_calls is None <==> stream_deltas(chunks).len() == 0,
        message.tool_calls matches Some(calls) ==> exists|indices: Seq<u32>|
            calls_by_index(calls@, indices, stream_deltas(chunks)),
{
    let deltas = stream_deltas(chunks);
    the_streamed_texts_make_up_the_message(chunks);
    each_index_comes_to_one_call(chunks);
    if deltas.len() > 0 {
        assert(occurs(deltas, deltas[0].index));
        assert(acc.calls().contains_key(deltas[0].index));
    } else {
        assert forall|k: u32| !#[trigger] acc.calls().contains_key(k) by {
            assert(!occurs(deltas, k));
        }
        assert(acc.calls() =~= Map::<u32, PartialView>::empty());
    }
    if message.tool_calls is Some {
        let calls = message.tool_calls->0@;
        let indices = choose|indices: Seq<u32>| lists(calls, indices, acc.calls());
        assert forall|i: int| 0 <= i < calls.len() implies {
            &&& call_parts(#[trigger] calls[i]) == joined(deltas.filter(has_index(indices[i])))
            &&& calls[i].function.arguments@ == fragments(deltas.filter(has_index(indices[i])))
            &&& calls[i].call_type@ == "function"@
        } by {
            assert(indices.contains(indices[i]));
            assert(acc.calls().contains_key(indices[i]));
            assert(is_call_of(calls[i], acc.calls()[indices[i]]));
            assert(call_parts(calls[i]) == acc.calls()[indices[i]]);
            the_fragments_make_up_the_arguments(deltas.filter(has_index(indices[i])));
        }
        assert(calls_by_index(calls, indices, deltas));
    }
}

/// Fragments that arrive for different indices do not disturb each other, in
/// whatever order they come.
pub proof fn calls_with_different_indices_are_independent(
    calls: Map<u32, PartialView>,
    a: ToolCallDelta,
    b: ToolCallDelta,
)
    requires
        a.index != b.index,
    ensures
        with_delta(with_delta(calls, a), b) == with_delta(with_delta(calls, b), a),
{
    assert(with_delta(with_delta(calls, a), b) =~= with_delta(with_delta(calls, b), a));
}

/// A fragment that repeats a call's whole name leaves the name as it is.
pub proof fn a_repeated_name_is_not_joined(name: Seq<char>)
    ensures
        grown_name(grown_name(Seq::empty(), name), name) == name,
{
}

/// The text grows by the content of each delta exactly as it came, whatever
/// characters it holds, and by nothing else.
pub proof fn the_text_grows_by_each_delta_as_it_came(
    choices: Seq<StreamChoice>,
    choice: StreamChoice,
)
    ensures
        choices_text(Seq::empty()).len() == 0,
        choice.delta.content matches Some(s) ==> choices_text(choices.push(choice))
            == choices_text(choices) + s@ && choices_text(choices.push(choice)).len()
            == choices_text(choices).len() + s@.len(),
        choice.delta.content is None ==> choices_text(choices.push(choice)) == choices_text(
            choices,
        ),
{
    assert(choices.push(choice).drop_last() =~= choices);
    if choice.delta.content is None {
        assert(choices_text(choices) + Seq::<char>::empty() =~= choices_text(choices));
    }
}

/// The text of a stream of chunks with one choice each is the contents of their
/// deltas, one behind the other and each as it came.
pub proof fn a_stream_is_its_contents_one_behind_the_other(
    chunks: Seq<StreamChunk>,
    chunk: StreamChunk,
)
    ensures
        stream_text(Seq::empty()).len() == 0,
        stream_text(chunks.push(chunk)) == stream_text(chunks) + choices_text(chunk.choices@),
        content_after(Seq::empty(), chunks.push(chunk)) == content_after(Seq::empty(), chunks)
            + choices_text(chunk.choices@),
        chunk.choices@.len() == 1 && chunk.choices@[0].delta.content is Some ==> stream_text(
            chunks.push(chunk),
        ) == stream_text(chunks) + chunk.choices@[0].delta.content->0@,
        chunk.choices@.len() == 0 ==> stream_text(chunks.push(chunk)) == stream_text(chunks),
{
    assert(chunks.push(chunk).drop_last() =~= chunks);
    if chunk.choices@.len() == 1 {
        let none = Seq::<StreamChoice>::empty();
        assert(chunk.choices@ =~= none.push(chunk.choices@[0]));
        the_text_grows_by_each_delta_as_it_came(none, chunk.choices@[0]);
        if chunk.choices@[0].delta.content is Some {
            let s = chunk.choices@[0].delta.content->0@;
            assert(choices_text(none) + s =~= s);
        }
    }
    if chunk.choices@.len() == 0 {
        assert(stream_text(chunks) + choices_text(chunk.choices@) =~= stream_text(chunks));
    }
}

/// A delta changes the call with its index alone, in what it brings: an id
/// takes the place of the one before, and a fragment of the arguments stands
/// behind those that came before it, as it came.
pub proof fn a_delta_adds_what_it_brings(calls: Map<u32, PartialView>, delta: ToolCallDelta)
    ensures
        ({
            let after = with_delta(calls, delta);
            let old_arguments = if calls.contains_key(delta.index) {
                calls[delta.index].arguments
            } else {
                Seq::empty()
            };
            &&& after.contains_key(delta.index)
            &&& forall|k: u32|
                k != delta.index ==> (#[trigger] after.contains_key(k) == calls.contains_key(k))
            &&& forall|k: u32|
                k != delta.index && calls.contains_key(k) ==> #[trigger] after[k] == calls[k]
            &&& delta.id matches Some(id) ==> after[delta.index].id == id@
            &&& delta.id is None && calls.contains_key(delta.index) ==> after[delta.index].id
                == calls[delta.index].id
            &&& delta.function matches Some(f) ==> (f.arguments matches Some(s)
                ==> after[delta.index].arguments == old_arguments + s@)
            &&& delta.function matches Some(f) ==> (f.arguments is None
                ==> after[delta.index].arguments == old_arguments)
            &&& delta.function is None ==> after[delta.index].arguments == old_arguments
        }),
{
}

/// The first fragment of a name is the name, another one goes on from it, and
/// one that repeats it adds nothing.
pub proof fn a_name_is_joined_from_its_fragments(
    call: PartialView,
    delta: ToolCallDelta,
    name: String,
)
    requires
        delta.function matches Some(f) && f.name == Some(name),
    ensures
        call.name.len() == 0 ==> grown(call, delta).name == name@,
        call.name == name@ ==> grown(call, delta).name == name@,
        call.name.len() > 0 && call.name != name@ ==> grown(call, delta).name == call.name
            + name@,
{
}

/// The deltas of every choice are added, in the order they came.
pub proof fn every_delta_is_added_in_its_order(
    calls: Map<u32, PartialView>,
    choices: Seq<StreamChoice>,
    choice: StreamChoice,
    deltas: Seq<ToolCallDelta>,
    delta: ToolCallDelta,
)
    ensures
        with_choices(calls, Seq::empty()) == calls,
        choice.delta.tool_calls matches Some(d) ==> with_choices(calls, choices.push(choice))
            == with_deltas(with_choices(calls, choices), d@),
        choice.delta.tool_calls is None ==> with_choices(calls, choices.push(choice))
            == with_choices(calls, choices),
        with_deltas(calls, Seq::empty()) == calls,
        with_deltas(calls, deltas.push(delta)) == with_delta(with_deltas(calls, deltas), delta),
{
    assert(choices.push(choice).drop_last() =~= choices);
    assert(deltas.push(delta).drop_last() =~= deltas);
}

/// The lines of a byte stream hold no line feed, and a line feed behind each
/// completed one gives the stream back.
pub proof fn the_lines_make_up_the_stream(b: Seq<u8>)
    ensures
        byte_lines(b).len() > 0,
        forall|i: int| 0 <= i < byte_lines(b).len() ==> !(#[trigger] byte_lines(b)[i]).contains(10),
        stream_of(complete_lines(b)) + open_line(b) == b,
    decreases b.len(),
{
    let parts = byte_lines(b);
    lemma_byte_lines_nonempty(b);
    if b.len() == 0 {
        assert(parts.drop_last() =~= Seq::<Seq<u8>>::empty());
        assert(stream_of(complete_lines(b)) + open_line(b) =~= b);
    } else {
        let head = b.drop_last();
        let before = byte_lines(head);
        lemma_byte_lines_nonempty(head);
        the_lines_make_up_the_stream(head);
        assert(head.push(b.last()) =~= b);
        if b.last() == 10 {
            assert(parts.drop_last() =~= before);
            assert(parts.last().len() == 0);
            assert(stream_of(before) == stream_of(before.drop_last()) + before.last().push(10u8));
            assert(stream_of(complete_lines(b)) + open_line(b) =~= b);
            assert forall|i: int| 0 <= i < parts.len() implies !(#[trigger] parts[i]).contains(
                10,
            ) by {
                if i < before.len() {
                    assert(parts[i] == before[i]);
                }
            }
        } else {
            assert(parts.drop_last() =~= before.drop_last());
            let last = before.last().push(b.last());
            assert(!last.contains(10)) by {
                assert(!before[before.len() - 1].contains(10));
                if last.contains(10) {
                    let k = choose|k: int| 0 <= k < last.len() && last[k] == 10;
                    assert(before.last()[k] == 10);
                }
            }
            assert(stream_of(complete_lines(b)) + open_line(b) =~= b);
            assert forall|i: int| 0 <= i < parts.len() implies !(#[trigger] parts[i]).contains(
                10,
            ) by {
                if i < before.len() - 1 {
                    assert(parts[i] == before[i]);
                }
            }
        }
    }
}

/// Lines with a line feed behind each.
pub open spec fn stream_of(lines: Seq<Seq<u8>>) -> Seq<u8>
    decreases lines.len(),
{
    if lines.len() == 0 {
        Seq::empty()
    } else {
        stream_of(lines.drop_last()) + lines.last().push(10u8)
    }
}

/// A data line carries what stands behind its name, without the white space
/// around it and whatever returns end the line; every other line carries
/// nothing.
pub proof fn a_data_line_carries_its_value(line: Seq<char>, value: Seq<char>)
    ensures
        line_payload("data:"@ + value) == Some(trim(without_returns(value))),
        (forall|rest: Seq<char>| without_returns(line) != #[trigger] ("data:"@ + rest))
            ==> line_payload(line) is None,
        value.len() > 0 && value.last() != '\r' ==> line_payload("data:"@ + value) == Some(
            trim(value),
        ) && line_payload(("data:"@ + value).push('\r')) == Some(trim(value)),
{
    reveal_strlit("data:");
    returns_end_a_line("data:"@, value);
    let bare = without_returns("data:"@ + value);
    assert(bare.take(5) =~= "data:"@);
    assert(bare.skip(5) =~= without_returns(value));
    crate::text::a_stripped_prefix_can_be_put_back(
        without_returns(line),
        "data:"@,
        Seq::empty(),
    );
    if value.len() > 0 && value.last() != '\r' {
        let line = ("data:"@ + value).push('\r');
        assert(line.drop_last() =~= "data:"@ + value);
        assert(("data:"@ + value).last() == value.last());
    }
}

proof fn returns_end_a_line(front: Seq<char>, value: Seq<char>)
    requires
        front.len() > 0,
        front.last() != '\r',
    ensures
        without_returns(front + value) == front + without_returns(value),
    decreases value.len(),
{
    if value.len() == 0 {
        assert(front + value =~= front);
        assert(front + without_returns(value) =~= front);
    } else if value.last() == '\r' {
        assert((front + value).drop_last() =~= front + value.drop_last());
        returns_end_a_line(front, value.drop_last());
    } else {
        assert((front + value).last() == value.last());
    }
}

/// What the lines carry comes out once for each line that carries something,
/// in the order of the lines.
pub proof fn each_data_line_hands_out_its_value(lines: Seq<Seq<u8>>, line: Seq<u8>)
    ensures
        payloads(Seq::empty()).len() == 0,
        line_payload(lossy_utf8(line)) matches Some(p) ==> payloads(lines.push(line)) == payloads(
            lines,
        ).push(p),
        line_payload(lossy_utf8(line)) is None ==> payloads(lines.push(line)) == payloads(lines),
{
    assert(lines.push(line).drop_last() =~= lines);
}

/// A text shows where it holds anything but white space.
pub proof fn a_text_shows_where_it_holds_ink(content: Option<String>)
    ensures
        is_visible(content) <==> content is Some && exists|i: int|
            0 <= i < content->0@.len() && !crate::text::is_white(#[trigger] content->0@[i]),
{
    if content is Some {
        crate::text::only_white_space_trims_to_nothing(content->0@);
    }
}

/// A client sends its key first, and every configured header as it is.
pub proof fn every_header_is_sent(client: Client, i: int)
    requires
        0 <= i < client.config.extra_headers@.len(),
    ensures
        header_views(client).len() == client.config.extra_headers@.len() + 1,
        header_views(client)[0].0 == "Authorization"@,
        header_views(client)[0].1 == "Bearer "@ + client.api_key@,
        header_views(client)[i + 1].0 == client.config.extra_headers@[i].0@,
        header_views(client)[i + 1].1 == client.config.extra_headers@[i].1@,
{
}

/// The effort level is sent in the style that is configured, and nested where
/// none is.
pub proof fn the_configured_style_counts(config: Config)
    ensures
        config.effort_style matches Some(s) ==> effort_style(config) == s@,
        config.effort_style is None ==> effort_style(config) == "nested"@,
{
}

} // verus!
