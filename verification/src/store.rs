//! What is kept of a session: its row, the rows of its messages, and what the
//! list of sessions shows of them.

use vstd::prelude::*;
use vstd::string::*;

use crate::client::ChatMessage;
use crate::config::{ApprovalSettings, Temperature};
use crate::crypto::{decrypt, decrypt_opt, encrypt_opt, fits_opt, unsealed, unsealed_opt};
use crate::text::{
    chars_of, is_white, join, join_chars, only_white_space_trims_to_nothing, opt_view, same, split,
    split_chars, string_of, string_views, strip_prefix, strip_prefix_chars, trim, trim_chars,
    views,
};

verus! {

/// The kind of a session without tools.
pub const KIND_CHAT: &'static str = "chat";

/// The kind of a session with tools.
pub const KIND_AGENT_CHAT: &'static str = "agent_chat";

/// A message and what produced it.
#[derive(Debug, Clone)]
pub struct StoredMessage {
    pub message: ChatMessage,
    pub model: Option<String>,
    pub effort_level: Option<String>,
}

/// What a session's process says it is doing.
#[derive(Debug, Clone, Copy, PartialEq, Eq, Structural)]
pub enum Activity {
    Working,
    AwaitingApproval,
    Failed,
}

/// The word that an activity is stored as.
pub open spec fn activity_text(a: Activity) -> Seq<char> {
    match a {
        Activity::Working => "working"@,
        Activity::AwaitingApproval => "approval"@,
        Activity::Failed => "failed"@,
    }
}

/// The activity that a stored word stands for; an unknown one says nothing.
pub open spec fn activity_of(value: Option<Seq<char>>) -> Option<Activity> {
    match value {
        Some(s) => if s == "working"@ {
            Some(Activity::Working)
        } else if s == "approval"@ {
            Some(Activity::AwaitingApproval)
        } else if s == "failed"@ {
            Some(Activity::Failed)
        } else {
            None
        },
        None => None,
    }
}

impl Activity {
    /// The word that the activity is stored as.
    pub fn as_str(self) -> (r: &'static str)
        ensures
            r@ == activity_text(self),
    {
        match self {
            Activity::Working => "working",
            Activity::AwaitingApproval => "approval",
            Activity::Failed => "failed",
        }
    }

    /// The activity that a stored word stands for.
    pub fn from_stored(value: Option<&str>) -> (r: Option<Self>)
        ensures
            r == activity_of(crate::text::str_view(value)),
    {
        match value {
            Some(s) => if same(s, "working") {
                Some(Activity::Working)
            } else if same(s, "approval") {
                Some(Activity::AwaitingApproval)
            } else if same(s, "failed") {
                Some(Activity::Failed)
            } else {
                None
            },
            None => None,
        }
    }
}

/// An activity that was stored reads as itself.
pub proof fn a_stored_activity_reads_as_itself(a: Activity)
    ensures
        activity_of(Some(activity_text(a))) == Some(a),
{
    reveal_strlit("working");
    reveal_strlit("approval");
    reveal_strlit("failed");
    assert("working"@.len() == 7 && "approval"@.len() == 8 && "failed"@.len() == 6);
}

/// A session as it is listed.
#[derive(Debug, Clone)]
pub struct SessionSummary {
    pub id: String,
    pub title: String,
    pub model: String,
    pub kind: String,
    pub effort_level: Option<String>,
    pub verbose: bool,
    pub highlight: bool,
    pub max_iterations: Option<i64>,
    pub temperature: Option<Temperature>,
    pub approval: ApprovalSettings,
    pub sandbox: bool,
    pub stream: bool,
    pub working_dir: Option<String>,
    pub activity: Option<Activity>,
    pub activity_detail: Option<String>,
    pub created_at: i64,
    pub updated_at: i64,
}

/// The summary that a stored row comes to: its title and the detail of its
/// activity are sealed.
pub fn read_summary(key: &[u8; 32], row: SessionSummary) -> (r: Result<SessionSummary, String>)
    ensures
        match unsealed(key@, row.title@) {
            Err(e) => r matches Err(x) && x@ == e,
            Ok(title) => match unsealed_opt(key@, opt_view(row.activity_detail)) {
                Err(e) => r matches Err(x) && x@ == e,
                Ok(detail) => {
                    &&& r matches Ok(s)
                    &&& s.title@ == title
                    &&& opt_view(s.activity_detail) == detail
                    &&& s == (SessionSummary {
                        title: s.title,
                        activity_detail: s.activity_detail,
                        ..row
                    })
                },
            },
        },
{
    let title: String = match decrypt(key, &row.title) {
        Ok(t) => t,
        Err(e) => {
            return Err(e);
        },
    };
    let mut summary: SessionSummary = row;
    match decrypt_opt(key, summary.activity_detail) {
        Ok(detail) => {
            summary.title = title;
            summary.activity_detail = detail;
            Ok(summary)
        },
        Err(e) => Err(e),
    }
}

/// Where a session left off.
#[derive(Debug, Clone, PartialEq, Eq)]
pub struct LastMessage {
    pub role: String,
    pub has_tool_calls: bool,
    pub preview: String,
}

/// Whether a message is the user's.
pub open spec fn is_user(m: ChatMessage) -> bool {
    m.role@ == "user"@
}

/// Whether the user has said anything.
pub open spec fn any_user(messages: Seq<ChatMessage>) -> bool {
    exists|i: int| 0 <= i < messages.len() && is_user(#[trigger] messages[i])
}

/// Whether the user has said anything.
pub fn has_user(messages: &Vec<ChatMessage>) -> (r: bool)
    ensures
        r == any_user(messages@),
{
    let mut i: usize = 0;
    while i < messages.len()
        invariant
            i <= messages@.len(),
            forall|k: int| 0 <= k < i ==> !is_user(#[trigger] messages@[k]),
        decreases messages@.len() - i,
    {
        if same(&messages[i].role, "user") {
            assert(is_user(messages@[i as int]));
            return true;
        }
        i = i + 1;
    }
    false
}

/// The text of the user's first message; empty where there is none.
pub open spec fn first_user_text(messages: Seq<ChatMessage>) -> Seq<char>
    decreases messages.len(),
{
    if messages.len() == 0 {
        Seq::empty()
    } else if is_user(messages[0]) {
        match messages[0].content {
            Some(c) => c@,
            None => Seq::empty(),
        }
    } else {
        first_user_text(messages.drop_first())
    }
}

/// A title made of a text: its first sixty characters, trimmed, with dots
/// behind them where it goes on.
pub open spec fn title_of(text: Seq<char>) -> Seq<char> {
    let t = trim(text);
    if t.len() == 0 {
        "Untitled"@
    } else if t.len() > 60 {
        t.take(60) + "..."@
    } else {
        t
    }
}

/// A title for a conversation, from the user's first message.
pub fn derive_title(messages: &Vec<ChatMessage>) -> (r: String)
    ensures
        r@ == title_of(first_user_text(messages@)),
{
    let mut text: String = String::new();
    let mut i: usize = 0;
    let mut found: bool = false;
    assert(messages@.skip(0) == messages@);
    while i < messages.len() && !found
        invariant
            i <= messages@.len(),
            !found ==> text@ == Seq::<char>::empty() && first_user_text(messages@)
                == first_user_text(messages@.skip(i as int)),
            found ==> text@ == first_user_text(messages@),
        decreases messages@.len() - i,
    {
        assert(messages@.skip(i as int).drop_first() == messages@.skip(i + 1));
        if same(&messages[i].role, "user") {
            found = true;
            match &messages[i].content {
                Some(c) => {
                    text = c.clone();
                },
                None => {},
            }
        }
        i = i + 1;
    }
    let chars: Vec<char> = chars_of(&text);
    let trimmed: &[char] = trim_chars(&chars);
    if trimmed.len() == 0 {
        return String::from_str("Untitled");
    }
    if trimmed.len() > 60 {
        let head: &[char] = vstd::slice::slice_subrange(trimmed, 0, 60);
        assert(head@ == trimmed@.take(60));
        let mut title: String = string_of(head);
        title.append("...");
        title
    } else {
        string_of(trimmed)
    }
}

/// A title is never empty and never longer than sixty characters and three
/// dots.
pub proof fn a_title_is_short_and_never_empty(text: Seq<char>)
    ensures
        0 < title_of(text).len() <= 63,
{
    reveal_strlit("Untitled");
    reveal_strlit("...");
}

/// The first piece that shows anything, trimmed.
pub open spec fn first_shown(pieces: Seq<Seq<char>>) -> Option<Seq<char>>
    decreases pieces.len(),
{
    if pieces.len() == 0 {
        None
    } else if trim(pieces[0]).len() > 0 {
        Some(trim(pieces[0]))
    } else {
        first_shown(pieces.drop_first())
    }
}

/// One line on a message: the first line of its text that shows anything, or
/// the names of the tools it calls.
pub open spec fn preview_text(
    content: Option<Seq<char>>,
    tool_names: Option<Seq<Seq<char>>>,
) -> Seq<char> {
    let line = match content {
        Some(text) => first_shown(split(text, '\n')),
        None => None,
    };
    match line {
        Some(l) => l,
        None => match tool_names {
            Some(names) => join(names, ", "@),
            None => Seq::empty(),
        },
    }
}

/// The names in an optional list.
pub open spec fn names_view(names: Option<Vec<String>>) -> Option<Seq<Seq<char>>> {
    match names {
        Some(n) => Some(string_views(n@)),
        None => None,
    }
}

/// One line on a message. `tool_names` are the tools that it calls, where its
/// calls could be read.
pub fn message_preview(content: &Option<String>, tool_names: &Option<Vec<String>>) -> (r: String)
    ensures
        r@ == preview_text(opt_view(*content), names_view(*tool_names)),
{
    match content {
        Some(text) => {
            let chars: Vec<char> = chars_of(text);
            let pieces: Vec<Vec<char>> = split_chars(&chars, '\n');
            let ghost all = views(pieces@);
            let mut i: usize = 0;
            assert(all.skip(0) == all);
            while i < pieces.len()
                invariant
                    i <= pieces@.len(),
                    all == views(pieces@),
                    content is Some,
                    all == split(content->0@, '\n'),
                    first_shown(all) == first_shown(all.skip(i as int)),
                decreases pieces@.len() - i,
            {
                assert(all.skip(i as int)[0] == pieces@[i as int]@);
                assert(all.skip(i as int).drop_first() == all.skip(i + 1));
                let line: &[char] = trim_chars(&pieces[i]);
                if line.len() > 0 {
                    return string_of(line);
                }
                i = i + 1;
            }
        },
        None => {},
    }
    match tool_names {
        Some(names) => {
            let mut parts: Vec<Vec<char>> = Vec::new();
            let mut i: usize = 0;
            while i < names.len()
                invariant
                    i <= names@.len(),
                    views(parts@) == string_views(names@).take(i as int),
                decreases names@.len() - i,
            {
                let ghost before = views(parts@);
                let part: Vec<char> = chars_of(&names[i]);
                parts.push(part);
                assert(views(parts@) == before.push(part@));
                assert(string_views(names@).take(i + 1) == before.push(names@[i as int]@));
                i = i + 1;
            }
            assert(string_views(names@).take(i as int) == string_views(names@));
            join_chars(&parts, ", ")
        },
        None => String::new(),
    }
}

/// What the list shows of a session's last message, from its row.
pub fn last_message(
    key: &[u8; 32],
    role: String,
    content: Option<String>,
    calls_tools: bool,
    tool_names: Option<Vec<String>>,
) -> (r: Result<LastMessage, String>)
    ensures
        match unsealed_opt(key@, opt_view(content)) {
            Err(e) => r matches Err(x) && x@ == e,
            Ok(text) => {
                &&& r matches Ok(last)
                &&& last.role == role
                &&& last.has_tool_calls == calls_tools
                &&& last.preview@ == preview_text(text, names_view(tool_names))
            },
        },
{
    match decrypt_opt(key, content) {
        Ok(text) => Ok(
            LastMessage {
                role,
                has_tool_calls: calls_tools,
                preview: message_preview(&text, &tool_names),
            },
        ),
        Err(e) => Err(e),
    }
}

/// The row of one message. Its texts are sealed, its role and its origin are
/// not.
#[derive(Debug, Clone, PartialEq, Eq)]
pub struct MessageRow {
    pub seq: usize,
    pub role: String,
    pub content: Option<String>,
    pub tool_calls: Option<String>,
    pub tool_call_id: Option<String>,
    pub model: Option<String>,
    pub effort_level: Option<String>,
    pub reasoning_details: Option<String>,
    pub reasoning: Option<String>,
}

/// Whether the texts of a row can be sealed.
pub open spec fn row_fits(row: MessageRow) -> bool {
    fits_opt(opt_view(row.content)) && fits_opt(opt_view(row.tool_calls)) && fits_opt(
        opt_view(row.reasoning_details),
    ) && fits_opt(opt_view(row.reasoning))
}

/// Whether a stored row reads as another one.
pub open spec fn reads_as(key: Seq<u8>, stored: MessageRow, plain: MessageRow) -> bool {
    &&& unsealed_opt(key, opt_view(stored.content)) == Ok::<Option<Seq<char>>, Seq<char>>(
        opt_view(plain.content),
    )
    &&& unsealed_opt(key, opt_view(stored.tool_calls)) == Ok::<Option<Seq<char>>, Seq<char>>(
        opt_view(plain.tool_calls),
    )
    &&& unsealed_opt(key, opt_view(stored.reasoning_details)) == Ok::<
        Option<Seq<char>>,
        Seq<char>,
    >(opt_view(plain.reasoning_details))
    &&& unsealed_opt(key, opt_view(stored.reasoning)) == Ok::<Option<Seq<char>>, Seq<char>>(
        opt_view(plain.reasoning),
    )
    &&& stored == (MessageRow {
        content: stored.content,
        tool_calls: stored.tool_calls,
        reasoning_details: stored.reasoning_details,
        reasoning: stored.reasoning,
        ..plain
    })
}

fn as_str_opt(s: &Option<String>) -> (r: Option<&str>)
    ensures
        crate::text::str_view(r) == opt_view(*s),
{
    match s {
        Some(x) => Some(x.as_str()),
        None => None,
    }
}

/// Seals the texts of a row for storing. What comes out reads as what went
/// in.
pub fn seal_row(key: &[u8; 32], row: MessageRow) -> (r: Result<MessageRow, String>)
    ensures
        r is Ok <==> row_fits(row),
        r matches Ok(stored) ==> reads_as(key@, stored, row),
        r matches Err(e) ==> e@ == "Encryption failed: aead::Error"@,
{
    let content: Option<String> = match encrypt_opt(key, as_str_opt(&row.content)) {
        Ok(s) => s,
        Err(e) => {
            return Err(e);
        },
    };
    let tool_calls: Option<String> = match encrypt_opt(key, as_str_opt(&row.tool_calls)) {
        Ok(s) => s,
        Err(e) => {
            return Err(e);
        },
    };
    let reasoning_details: Option<String> = match encrypt_opt(
        key,
        as_str_opt(&row.reasoning_details),
    ) {
        Ok(s) => s,
        Err(e) => {
            return Err(e);
        },
    };
    let reasoning: Option<String> = match encrypt_opt(key, as_str_opt(&row.reasoning)) {
        Ok(s) => s,
        Err(e) => {
            return Err(e);
        },
    };
    Ok(
        MessageRow {
            seq: row.seq,
            role: row.role,
            content,
            tool_calls,
            tool_call_id: row.tool_call_id,
            model: row.model,
            effort_level: row.effort_level,
            reasoning_details,
            reasoning,
        },
    )
}

/// Reads the texts of a stored row. The first text that cannot be read is the
/// error, in the order content, tool calls, reasoning, reasoning details.
pub fn open_row(key: &[u8; 32], row: MessageRow) -> (r: Result<MessageRow, String>)
    ensures
        r matches Ok(plain) ==> reads_as(key@, row, plain),
        r is Ok <==> unsealed_opt(key@, opt_view(row.content)) is Ok && unsealed_opt(
            key@,
            opt_view(row.tool_calls),
        ) is Ok && unsealed_opt(key@, opt_view(row.reasoning)) is Ok && unsealed_opt(
            key@,
            opt_view(row.reasoning_details),
        ) is Ok,
        r matches Err(e) ==> Some(e@) == first_error(
            unsealed_opt(key@, opt_view(row.content)),
            unsealed_opt(key@, opt_view(row.tool_calls)),
            unsealed_opt(key@, opt_view(row.reasoning)),
            unsealed_opt(key@, opt_view(row.reasoning_details)),
        ),
{
    let content: Option<String> = match decrypt_opt(key, row.content) {
        Ok(s) => s,
        Err(e) => {
            return Err(e);
        },
    };
    let tool_calls: Option<String> = match decrypt_opt(key, row.tool_calls) {
        Ok(s) => s,
        Err(e) => {
            return Err(e);
        },
    };
    let reasoning: Option<String> = match decrypt_opt(key, row.reasoning) {
        Ok(s) => s,
        Err(e) => {
            return Err(e);
        },
    };
    let reasoning_details: Option<String> = match decrypt_opt(key, row.reasoning_details) {
        Ok(s) => s,
        Err(e) => {
            return Err(e);
        },
    };
    Ok(
        MessageRow {
            seq: row.seq,
            role: row.role,
            content,
            tool_calls,
            tool_call_id: row.tool_call_id,
            model: row.model,
            effort_level: row.effort_level,
            reasoning_details,
            reasoning,
        },
    )
}

/// The first error among four results.
pub open spec fn first_error(
    a: Result<Option<Seq<char>>, Seq<char>>,
    b: Result<Option<Seq<char>>, Seq<char>>,
    c: Result<Option<Seq<char>>, Seq<char>>,
    d: Result<Option<Seq<char>>, Seq<char>>,
) -> Option<Seq<char>> {
    match (a, b, c, d) {
        (Err(e), _, _, _) => Some(e),
        (_, Err(e), _, _) => Some(e),
        (_, _, Err(e), _) => Some(e),
        (_, _, _, Err(e)) => Some(e),
        _ => None,
    }
}

/// What is read back of a stored row is what was stored, and can always be
/// read: two rows that one stored row reads as hold the same texts.
pub proof fn a_stored_row_is_read_back(
    key: Seq<u8>,
    written: MessageRow,
    stored: MessageRow,
    read: MessageRow,
)
    requires
        reads_as(key, stored, written),
        reads_as(key, stored, read),
    ensures
        opt_view(read.content) == opt_view(written.content),
        opt_view(read.tool_calls) == opt_view(written.tool_calls),
        opt_view(read.reasoning) == opt_view(written.reasoning),
        opt_view(read.reasoning_details) == opt_view(written.reasoning_details),
        read.seq == written.seq,
        read.role == written.role,
        read.tool_call_id == written.tool_call_id,
        read.model == written.model,
        read.effort_level == written.effort_level,
{
}

/// How a session's mode is called wherever a user reads it.
pub open spec fn mode_text(agentic: bool) -> Seq<char> {
    if agentic {
        "agent"@
    } else {
        "ask"@
    }
}

/// How a session's mode is called wherever a user reads it.
pub fn mode_label(agentic: bool) -> (r: &'static str)
    ensures
        r@ == mode_text(agentic),
{
    if agentic {
        "agent"
    } else {
        "ask"
    }
}

/// The kind that a mode is stored as.
pub open spec fn kind_text(agentic: bool) -> Seq<char> {
    if agentic {
        KIND_AGENT_CHAT@
    } else {
        KIND_CHAT@
    }
}

/// The kind that a mode is stored as.
pub fn kind_of(agentic: bool) -> (r: &'static str)
    ensures
        r@ == kind_text(agentic),
{
    if agentic {
        KIND_AGENT_CHAT
    } else {
        KIND_CHAT
    }
}

/// The stored kind of a mode tells the mode.
pub proof fn the_stored_kind_tells_the_mode(agentic: bool)
    ensures
        (kind_text(agentic) == KIND_AGENT_CHAT@) == agentic,
{
    reveal_strlit("chat");
    reveal_strlit("agent_chat");
    assert("chat"@.len() != "agent_chat"@.len());
}

/// Whether an id starts with a prefix.
pub open spec fn has_prefix(id: Seq<char>, prefix: Seq<char>) -> bool {
    strip_prefix(id, prefix) is Some
}

/// Whether an id is the only one with a prefix.
pub open spec fn is_the_only_one(ids: Seq<Seq<char>>, prefix: Seq<char>, i: int) -> bool {
    &&& 0 <= i < ids.len()
    &&& has_prefix(ids[i], prefix)
    &&& forall|j: int| 0 <= j < ids.len() && j != i ==> !has_prefix(#[trigger] ids[j], prefix)
}

/// Which session is meant by an id, or by the start of one where that is
/// unambiguous: an id that is given in full is meant even where others go on
/// from it.
pub fn pick_session(ids: &Vec<String>, id_or_prefix: &str) -> (r: Option<usize>)
    ensures
        ({
            let all = string_views(ids@);
            match r {
                Some(i) => {
                    &&& i < all.len()
                    &&& if all.contains(id_or_prefix@) {
                        all[i as int] == id_or_prefix@
                    } else {
                        is_the_only_one(all, id_or_prefix@, i as int)
                    }
                },
                None => {
                    &&& !all.contains(id_or_prefix@)
                    &&& forall|i: int| !is_the_only_one(all, id_or_prefix@, i)
                },
            }
        }),
{
    let ghost all = string_views(ids@);
    let ghost wanted = id_or_prefix@;
    let mut found: Option<usize> = None;
    let mut several: bool = false;
    let mut i: usize = 0;
    while i < ids.len()
        invariant
            i <= ids@.len(),
            all == string_views(ids@),
            wanted == id_or_prefix@,
            forall|k: int| 0 <= k < i ==> #[trigger] all[k] != wanted,
            match found {
                None => !several && forall|k: int|
                    0 <= k < i ==> !has_prefix(#[trigger] all[k], wanted),
                Some(f) => f < i && has_prefix(all[f as int], wanted) && (!several ==> forall|k: int|
                    0 <= k < i && k != f ==> !has_prefix(#[trigger] all[k], wanted)),
            },
            several ==> exists|a: int, b: int|
                0 <= a < b < i && has_prefix(#[trigger] all[a], wanted) && has_prefix(
                    #[trigger] all[b],
                    wanted,
                ),
        decreases ids@.len() - i,
    {
        assert(all[i as int] == ids@[i as int]@);
        if same(&ids[i], id_or_prefix) {
            assert(all.contains(wanted));
            return Some(i);
        }
        let chars: Vec<char> = chars_of(&ids[i]);
        if strip_prefix_chars(&chars, id_or_prefix).is_some() {
            match found {
                None => {
                    found = Some(i);
                },
                Some(_) => {
                    several = true;
                },
            }
        }
        i = i + 1;
    }
    assert(!all.contains(wanted));
    if several {
        assert forall|k: int| !is_the_only_one(all, wanted, k) by {
            let (a, b) = choose|a: int, b: int|
                0 <= a < b < all.len() && has_prefix(#[trigger] all[a], wanted) && has_prefix(
                    #[trigger] all[b],
                    wanted,
                );
            assert(has_prefix(all[a], wanted) && has_prefix(all[b], wanted));
        }
        None
    } else {
        found
    }
}

/// A title starts as the trimmed text does, character by character: a text of
/// up to sixty characters is the title itself, and of a longer one the first
/// sixty stand there, with nothing but three dots behind them.
pub proof fn a_title_starts_as_the_text_does(text: Seq<char>)
    requires
        trim(text).len() > 0,
    ensures
        trim(text).len() <= 60 ==> title_of(text) == trim(text),
        trim(text).len() > 60 ==> {
            &&& title_of(text).len() == 63
            &&& forall|i: int| 0 <= i < 60 ==> #[trigger] title_of(text)[i] == trim(text)[i]
            &&& forall|i: int| 60 <= i < 63 ==> #[trigger] title_of(text)[i] == '.'
        },
{
    reveal_strlit("...");
}

/// A conversation in which nothing is said has the title for that.
pub proof fn without_a_text_a_title_is_untitled(text: Seq<char>)
    requires
        forall|i: int| 0 <= i < text.len() ==> is_white(#[trigger] text[i]),
    ensures
        title_of(text) == "Untitled"@,
{
    only_white_space_trims_to_nothing(text);
}

/// The title is made of the first message of the user's: what others said
/// before it, and whatever comes behind it, is not looked at.
pub proof fn the_first_message_of_the_user_counts(messages: Seq<ChatMessage>, i: int)
    requires
        0 <= i < messages.len(),
        messages[i].role@ == "user"@,
        forall|j: int| 0 <= j < i ==> (#[trigger] messages[j]).role@ != "user"@,
    ensures
        messages[i].content matches Some(text) ==> first_user_text(messages) == text@,
        messages[i].content is None ==> first_user_text(messages).len() == 0,
    decreases i,
{
    if i > 0 {
        assert(messages[0].role@ != "user"@);
        let rest = messages.drop_first();
        assert forall|j: int| 0 <= j < i - 1 implies (#[trigger] rest[j]).role@ != "user"@ by {
            assert(rest[j] == messages[j + 1]);
        }
        the_first_message_of_the_user_counts(rest, i - 1);
    }
}

/// Where the user has said nothing there is no text to make a title of.
pub proof fn without_a_user_there_is_no_text(messages: Seq<ChatMessage>)
    requires
        forall|j: int| 0 <= j < messages.len() ==> (#[trigger] messages[j]).role@ != "user"@,
    ensures
        first_user_text(messages).len() == 0,
    decreases messages.len(),
{
    if messages.len() > 0 {
        assert(messages[0].role@ != "user"@);
        let rest = messages.drop_first();
        assert forall|j: int| 0 <= j < rest.len() implies (#[trigger] rest[j]).role@ != "user"@ by {
            assert(rest[j] == messages[j + 1]);
        }
        without_a_user_there_is_no_text(rest);
    }
}

/// A preview is the first line that shows anything, trimmed, whatever the
/// lines behind it hold and whatever tools are called.
pub proof fn a_preview_is_the_first_line_that_shows(
    text: Seq<char>,
    names: Option<Seq<Seq<char>>>,
    i: int,
)
    requires
        0 <= i < split(text, '\n').len(),
        trim(split(text, '\n')[i]).len() > 0,
        forall|j: int| 0 <= j < i ==> trim(#[trigger] split(text, '\n')[j]).len() == 0,
    ensures
        preview_text(Some(text), names) == trim(split(text, '\n')[i]),
{
    the_first_piece_that_shows(split(text, '\n'), i);
}

proof fn the_first_piece_that_shows(pieces: Seq<Seq<char>>, i: int)
    requires
        0 <= i < pieces.len(),
        trim(pieces[i]).len() > 0,
        forall|j: int| 0 <= j < i ==> trim(#[trigger] pieces[j]).len() == 0,
    ensures
        first_shown(pieces) == Some(trim(pieces[i])),
    decreases i,
{
    if i > 0 {
        assert(trim(pieces[0]).len() == 0);
        let rest = pieces.drop_first();
        assert forall|j: int| 0 <= j < i - 1 implies trim(#[trigger] rest[j]).len() == 0 by {
            assert(rest[j] == pieces[j + 1]);
        }
        the_first_piece_that_shows(rest, i - 1);
    }
}

/// A message without a text that shows is told by the tools it calls, all of
/// them and in their order, and by nothing where it calls none.
pub proof fn a_silent_message_is_told_by_its_tools(
    text: Seq<char>,
    names: Seq<Seq<char>>,
    name: Seq<char>,
)
    requires
        forall|j: int|
            0 <= j < split(text, '\n').len() ==> trim(#[trigger] split(text, '\n')[j]).len() == 0,
    ensures
        preview_text(Some(text), Some(names)) == preview_text(None, Some(names)),
        preview_text(Some(text), None) == Seq::<char>::empty(),
        preview_text(None, None) == Seq::<char>::empty(),
        preview_text(None, Some(Seq::empty())) == Seq::<char>::empty(),
        preview_text(None, Some(seq![name])) == name,
        names.len() > 0 ==> preview_text(None, Some(names.push(name))) == preview_text(
            None,
            Some(names),
        ) + ", "@ + name,
{
    no_piece_shows(split(text, '\n'));
    assert(names.push(name).drop_last() =~= names);
}

proof fn no_piece_shows(pieces: Seq<Seq<char>>)
    requires
        forall|j: int| 0 <= j < pieces.len() ==> trim(#[trigger] pieces[j]).len() == 0,
    ensures
        first_shown(pieces) is None,
    decreases pieces.len(),
{
    if pieces.len() > 0 {
        assert(trim(pieces[0]).len() == 0);
        let rest = pieces.drop_first();
        assert forall|j: int| 0 <= j < rest.len() implies trim(#[trigger] rest[j]).len() == 0 by {
            assert(rest[j] == pieces[j + 1]);
        }
        no_piece_shows(rest);
    }
}

/// An id starts with a prefix exactly where something, or nothing, put behind
/// the prefix gives the id.
pub proof fn an_id_goes_on_from_its_prefix(id: Seq<char>, prefix: Seq<char>)
    ensures
        has_prefix(id, prefix) <==> exists|rest: Seq<char>| id == #[trigger] (prefix + rest),
        has_prefix(id, id),
        prefix.len() > id.len() ==> !has_prefix(id, prefix),
{
    crate::text::a_stripped_prefix_can_be_put_back(id, prefix, Seq::empty());
    crate::text::a_stripped_prefix_can_be_put_back(id, id, Seq::empty());
    assert(id + Seq::<char>::empty() =~= id);
}

/// What is read back of a row is what was written, field by field, and none of
/// its origin is touched.
pub proof fn a_row_keeps_its_origin(key: Seq<u8>, stored: MessageRow, plain: MessageRow)
    requires
        reads_as(key, stored, plain),
    ensures
        plain.seq == stored.seq,
        plain.role == stored.role,
        plain.tool_call_id == stored.tool_call_id,
        plain.model == stored.model,
        plain.effort_level == stored.effort_level,
        stored.content is None ==> plain.content is None,
        stored.content matches Some(s) ==> unsealed(key, s@) == Ok::<Seq<char>, Seq<char>>(
            plain.content->0@,
        ),
        stored.reasoning matches Some(s) ==> unsealed(key, s@) == Ok::<Seq<char>, Seq<char>>(
            plain.reasoning->0@,
        ),
        stored.tool_calls matches Some(s) ==> unsealed(key, s@) == Ok::<Seq<char>, Seq<char>>(
            plain.tool_calls->0@,
        ),
        stored.reasoning_details matches Some(s) ==> unsealed(key, s@) == Ok::<
            Seq<char>,
            Seq<char>,
        >(plain.reasoning_details->0@),
{
}

/// The words that are stored and shown tell the modes apart.
pub proof fn the_mode_is_told_by_its_word(agentic: bool)
    ensures
        mode_text(true) == "agent"@,
        mode_text(false) == "ask"@,
        kind_text(true) == "agent_chat"@,
        kind_text(false) == "chat"@,
{
}

} // verus!
