//! What both front ends share: the commands a line can hold, the settings
//! table, and the summaries of a tool call.

use vstd::prelude::*;
use vstd::string::*;

use crate::config::{ApprovalSettings, Temperature};
use crate::text::{
    ascii_lowercase, cases_agree, chars_of, concat2, concat3, concat4, contains_char, decimal,
    decimal_of, lowercase, opt_view, parse_unsigned, parse_usize, same, same_ignoring_case,
    starts_white, starts_with_whitespace, str_view, string_of, strip_prefix, strip_prefix_chars,
    to_lowercase, trim, trim_chars, views, without_plus, words, words_of,
};

verus! {

/// A model's name with the effort level in brackets behind it.
pub open spec fn label_text(model: Seq<char>, effort_level: Option<Seq<char>>) -> Seq<char> {
    match effort_level {
        Some(effort) => model + " ("@ + effort + ")"@,
        None => model,
    }
}

/// How a reply's model is shown, such as "orcarouter/auto (high)".
pub fn response_label(model: &str, effort_level: &Option<String>) -> (r: String)
    ensures
        r@ == label_text(model@, opt_view(*effort_level)),
{
    match effort_level {
        Some(effort) => concat4(model, " (", effort, ")"),
        None => String::from_str(model),
    }
}

/// A text on one line: line feeds and tabs become spaces.
pub open spec fn flattened(s: Seq<char>) -> Seq<char> {
    s.map_values(|c: char| if c == '\n' || c == '\t' { ' ' } else { c })
}

/// A text on one line without outer white space, cut to `max` characters with
/// an ellipsis behind them where it is longer.
pub open spec fn summary_text(s: Seq<char>, max: nat) -> Seq<char> {
    let flat = trim(flattened(s));
    if flat.len() > max {
        flat.take(max as int).push('\u{2026}')
    } else {
        flat
    }
}

/// A one-line summary of a text, at most `max` characters and an ellipsis.
pub fn summarize(text: &str, max: usize) -> (r: String)
    ensures
        r@ == summary_text(text@, max as nat),
{
    let chars: Vec<char> = chars_of(text);
    let mut flat: Vec<char> = Vec::new();
    let mut i: usize = 0;
    while i < chars.len()
        invariant
            i <= chars.len(),
            flat@ == flattened(chars@.take(i as int)),
        decreases chars.len() - i,
    {
        let c: char = chars[i];
        flat.push(if c == '\n' || c == '\t' { ' ' } else { c });
        assert(flat@ == flattened(chars@.take(i + 1)));
        i = i + 1;
    }
    assert(chars@.take(i as int) == text@);
    let trimmed: &[char] = trim_chars(&flat);
    if trimmed.len() > max {
        let kept: &[char] = vstd::slice::slice_subrange(trimmed, 0, max);
        assert(kept@ == trimmed@.take(max as int));
        let mut out: String = string_of(kept);
        out.push('\u{2026}');
        out
    } else {
        string_of(trimmed)
    }
}

/// A summary is never longer than the limit and the ellipsis, and holds
/// neither a line feed nor a tab.
pub proof fn a_summary_fits_on_one_line(s: Seq<char>, max: nat)
    ensures
        summary_text(s, max).len() <= max + 1,
        !summary_text(s, max).contains('\n'),
        !summary_text(s, max).contains('\t'),
{
    let flat = flattened(s);
    lemma_trim_is_part(flat);
    let (i, j) = choose|i: int, j: int|
        0 <= i <= j <= flat.len() && trim(flat) == #[trigger] flat.subrange(i, j);
    assert(trim(flat) == flat.subrange(i, j));
    assert forall|k: int| 0 <= k < trim(flat).len() implies #[trigger] trim(flat)[k] != '\n'
        && trim(flat)[k] != '\t' by {
        assert(trim(flat)[k] == flat[i + k]);
    }
    let t = summary_text(s, max);
    assert forall|k: int| 0 <= k < t.len() implies #[trigger] t[k] != '\n' && t[k] != '\t' by {
        if k < trim(flat).len() && k < max {
            assert(t[k] == trim(flat)[k]);
        }
    }
}

/// A summary of a summary is the summary itself.
pub proof fn a_summary_of_a_summary_is_itself(s: Seq<char>, max: nat)
    ensures
        summary_text(summary_text(s, max), max) == summary_text(s, max),
{
    let flat = trim(flattened(s));
    let t = summary_text(s, max);
    a_summary_fits_on_one_line(s, max);
    assert forall|k: int| 0 <= k < t.len() implies #[trigger] flattened(t)[k] == t[k] by {
        assert(t.contains(t[k]));
    }
    assert(flattened(t) =~= t);
    crate::text::lemma_trim_start(flattened(s));
    crate::text::lemma_trim_end(crate::text::trim_start(flattened(s)));
    assert(!crate::text::is_white('\u{2026}'));
    if t.len() > 0 {
        assert(flat.len() > max ==> (max > 0 ==> t[0] == flat[0]));
    }
    assert(trim(t) == t);
    if flat.len() > max {
        assert(t.take(max as int) =~= flat.take(max as int));
    }
}

proof fn lemma_trim_is_part(s: Seq<char>)
    ensures
        exists|i: int, j: int| 0 <= i <= j <= s.len() && trim(s) == #[trigger] s.subrange(i, j),
{
    lemma_trim_start_is_suffix(s);
    let t = crate::text::trim_start(s);
    let i = s.len() - t.len();
    lemma_trim_end_is_prefix(t);
    let n = trim(s).len();
    assert(trim(s) =~= s.subrange(i, (i + n) as int));
}

proof fn lemma_trim_start_is_suffix(s: Seq<char>)
    ensures
        crate::text::trim_start(s).len() <= s.len(),
        crate::text::trim_start(s) == s.skip(s.len() - crate::text::trim_start(s).len()),
    decreases s.len(),
{
    if s.len() > 0 && crate::text::is_white(s[0]) {
        lemma_trim_start_is_suffix(s.drop_first());
        let t = crate::text::trim_start(s);
        assert(s.skip(s.len() - t.len()) =~= s.drop_first().skip(s.drop_first().len() - t.len()));
    } else {
        assert(s.skip(0) =~= s);
    }
}

proof fn lemma_trim_end_is_prefix(s: Seq<char>)
    ensures
        crate::text::trim_end(s).len() <= s.len(),
        crate::text::trim_end(s) == s.take(crate::text::trim_end(s).len() as int),
    decreases s.len(),
{
    if s.len() > 0 && crate::text::is_white(s.last()) {
        lemma_trim_end_is_prefix(s.drop_last());
        let t = crate::text::trim_end(s);
        assert(s.take(t.len() as int) =~= s.drop_last().take(t.len() as int));
    } else {
        assert(s.take(s.len() as int) =~= s);
    }
}

/// One value of a JSON object, as far as the library reads it.
#[derive(Debug, Clone, PartialEq, Eq)]
pub enum JsonField {
    /// A string, without its quotes.
    Text(String),
    /// Anything else: its JSON text, and its value where it is a number that
    /// fits in a `u64`.
    Other { shown: String, unsigned: Option<u64> },
}

/// A JSON value as far as the library reads it.
pub enum JsonFieldView {
    Text(Seq<char>),
    Other { shown: Seq<char>, unsigned: Option<u64> },
}

impl View for JsonField {
    type V = JsonFieldView;

    open spec fn view(&self) -> JsonFieldView {
        match self {
            JsonField::Text(s) => JsonFieldView::Text(s@),
            JsonField::Other { shown, unsigned } => JsonFieldView::Other {
                shown: shown@,
                unsigned: *unsigned,
            },
        }
    }
}

/// The fields of an object, with the characters of each.
pub open spec fn field_views(fields: Seq<(String, JsonField)>) -> Seq<(Seq<char>, JsonFieldView)> {
    fields.map_values(|f: (String, JsonField)| (f.0@, f.1@))
}

/// What `serde_json::from_str` makes of a text: the fields of an object in
/// the order of its map, no fields for any other value, or the error's text.
pub uninterp spec fn parsed_json(text: Seq<char>) -> Result<
    Seq<(Seq<char>, JsonFieldView)>,
    Seq<char>,
>;

/// The characters of what a JSON text was read as.
pub open spec fn json_view(r: Result<Vec<(String, JsonField)>, String>) -> Result<
    Seq<(Seq<char>, JsonFieldView)>,
    Seq<char>,
> {
    match r {
        Ok(fields) => Ok(field_views(fields@)),
        Err(e) => Err(e@),
    }
}

/// Calls `serde_json::from_str` and takes the value apart: an object's fields
/// with each string as it is and every other value as the text that its
/// `Display` gives, along with `as_u64`. The result depends on the text alone.
#[verifier::external_body]
pub(crate) fn parse_json(text: &str) -> (r: Result<Vec<(String, JsonField)>, String>)
    ensures
        json_view(r) == parsed_json(text@),
{
    match serde_json::from_str::<serde_json::Value>(text) {
        Ok(serde_json::Value::Object(map)) => Ok(
            map.into_iter().map(
                |(key, value)|
                    match value {
                        serde_json::Value::String(s) => (key, JsonField::Text(s)),
                        v => (key, JsonField::Other { unsigned: v.as_u64(), shown: v.to_string() }),
                    },
            ).collect(),
        ),
        Ok(_) => Ok(Vec::new()),
        Err(e) => Err(e.to_string()),
    }
}

/// The first string among the fields with a given name.
pub open spec fn text_field(fields: Seq<(Seq<char>, JsonFieldView)>, key: Seq<char>) -> Option<
    Seq<char>,
>
    decreases fields.len(),
{
    if fields.len() == 0 {
        None
    } else if fields[0].0 == key {
        match fields[0].1 {
            JsonFieldView::Text(s) => Some(s),
            JsonFieldView::Other { .. } => None,
        }
    } else {
        text_field(fields.drop_first(), key)
    }
}

/// The string that an object holds under a name.
pub fn text_of(fields: &Vec<(String, JsonField)>, key: &str) -> (r: Option<String>)
    ensures
        opt_view(r) == text_field(field_views(fields@), key@),
{
    let mut i: usize = 0;
    assert(field_views(fields@).skip(0) == field_views(fields@));
    while i < fields.len()
        invariant
            i <= fields.len(),
            text_field(field_views(fields@), key@) == text_field(
                field_views(fields@).skip(i as int),
                key@,
            ),
        decreases fields.len() - i,
    {
        let ghost rest = field_views(fields@).skip(i as int);
        assert(rest[0] == (fields@[i as int].0@, fields@[i as int].1@));
        assert(rest.drop_first() == field_views(fields@).skip(i + 1));
        if same(&fields[i].0, key) {
            return match &fields[i].1 {
                JsonField::Text(s) => Some(s.clone()),
                JsonField::Other { .. } => None,
            };
        }
        i = i + 1;
    }
    None
}

/// The number that an object holds under a name.
pub open spec fn unsigned_field(fields: Seq<(Seq<char>, JsonFieldView)>, key: Seq<char>) -> Option<
    u64,
>
    decreases fields.len(),
{
    if fields.len() == 0 {
        None
    } else if fields[0].0 == key {
        match fields[0].1 {
            JsonFieldView::Text(_) => None,
            JsonFieldView::Other { unsigned, .. } => unsigned,
        }
    } else {
        unsigned_field(fields.drop_first(), key)
    }
}

/// The number that an object holds under a name.
pub fn unsigned_of(fields: &Vec<(String, JsonField)>, key: &str) -> (r: Option<u64>)
    ensures
        r == unsigned_field(field_views(fields@), key@),
{
    let mut i: usize = 0;
    assert(field_views(fields@).skip(0) == field_views(fields@));
    while i < fields.len()
        invariant
            i <= fields.len(),
            unsigned_field(field_views(fields@), key@) == unsigned_field(
                field_views(fields@).skip(i as int),
                key@,
            ),
        decreases fields.len() - i,
    {
        let ghost rest = field_views(fields@).skip(i as int);
        assert(rest[0] == (fields@[i as int].0@, fields@[i as int].1@));
        assert(rest.drop_first() == field_views(fields@).skip(i + 1));
        if same(&fields[i].0, key) {
            return match &fields[i].1 {
                JsonField::Text(_) => None,
                JsonField::Other { unsigned, .. } => *unsigned,
            };
        }
        i = i + 1;
    }
    None
}

/// The file, the command or the directory that a call acts on, whichever its
/// arguments name first in this order.
pub open spec fn primary_text(fields: Seq<(Seq<char>, JsonFieldView)>) -> Option<Seq<char>> {
    match text_field(fields, "filepath"@) {
        Some(s) => Some(s),
        None => match text_field(fields, "command"@) {
            Some(s) => Some(s),
            None => text_field(fields, "dirpath"@),
        },
    }
}

/// The file, the command or the directory that a call acts on.
pub fn primary_field(fields: &Vec<(String, JsonField)>) -> (r: Option<String>)
    ensures
        opt_view(r) == primary_text(field_views(fields@)),
{
    match text_of(fields, "filepath") {
        Some(s) => Some(s),
        None => match text_of(fields, "command") {
            Some(s) => Some(s),
            None => text_of(fields, "dirpath"),
        },
    }
}

/// What a call acts on, by the JSON text of its arguments.
pub open spec fn primary_argument_text(arguments: Seq<char>) -> Option<Seq<char>> {
    match parsed_json(arguments) {
        Ok(fields) => primary_text(fields),
        Err(_) => None,
    }
}

/// What a call acts on: the argument that identifies it best.
pub fn primary_argument(arguments: &str) -> (r: Option<String>)
    ensures
        opt_view(r) == primary_argument_text(arguments@),
{
    match parse_json(arguments) {
        Ok(fields) => primary_field(&fields),
        Err(_) => None,
    }
}

/// How a value is shown: a string as it is, anything else as its JSON text.
pub open spec fn shown_text(value: JsonFieldView) -> Seq<char> {
    match value {
        JsonFieldView::Text(s) => s,
        JsonFieldView::Other { shown, .. } => shown,
    }
}

/// How a value is shown.
pub fn shown_value(value: &JsonField) -> (r: String)
    ensures
        r@ == shown_text(value@),
{
    match value {
        JsonField::Text(s) => s.clone(),
        JsonField::Other { shown, .. } => shown.clone(),
    }
}

/// The characters of each pair.
pub open spec fn pair_views(rows: Seq<(String, String)>) -> Seq<(Seq<char>, Seq<char>)> {
    rows.map_values(|row: (String, String)| (row.0@, row.1@))
}

/// Each field's name, and its value cut to a hundred characters.
pub open spec fn field_summaries(fields: Seq<(Seq<char>, JsonFieldView)>) -> Seq<
    (Seq<char>, Seq<char>),
> {
    fields.map_values(
        |f: (Seq<char>, JsonFieldView)| (f.0, summary_text(shown_text(f.1), 100)),
    )
}

/// Each field's name and a summary of its value.
pub fn field_rows(fields: &Vec<(String, JsonField)>) -> (r: Vec<(String, String)>)
    ensures
        pair_views(r@) == field_summaries(field_views(fields@)),
{
    let mut rows: Vec<(String, String)> = Vec::new();
    let mut i: usize = 0;
    while i < fields.len()
        invariant
            i <= fields.len(),
            pair_views(rows@) == field_summaries(field_views(fields@)).take(i as int),
        decreases fields.len() - i,
    {
        let ghost before = pair_views(rows@);
        let shown: String = shown_value(&fields[i].1);
        let row: (String, String) = (fields[i].0.clone(), summarize(&shown, 100));
        rows.push(row);
        assert(pair_views(rows@) == before.push((row.0@, row.1@)));
        assert(field_summaries(field_views(fields@)).take(i + 1) == before.push(
            field_summaries(field_views(fields@))[i as int],
        ));
        i = i + 1;
    }
    assert(field_summaries(field_views(fields@)).take(i as int) == field_summaries(
        field_views(fields@),
    ));
    rows
}

/// The rows that a JSON text is shown as; none where it is no object.
pub open spec fn json_rows(text: Seq<char>) -> Seq<(Seq<char>, Seq<char>)> {
    match parsed_json(text) {
        Ok(fields) => field_summaries(fields),
        Err(_) => Seq::empty(),
    }
}

/// A JSON object field by field.
pub fn json_fields(text: &str) -> (r: Vec<(String, String)>)
    ensures
        pair_views(r@) == json_rows(text@),
{
    match parse_json(text) {
        Ok(fields) => field_rows(&fields),
        Err(_) => {
            let rows: Vec<(String, String)> = Vec::new();
            assert(pair_views(rows@) == Seq::<(Seq<char>, Seq<char>)>::empty());
            rows
        },
    }
}

/// Whether a row has the given name.
pub open spec fn has_row(rows: Seq<(Seq<char>, Seq<char>)>, key: Seq<char>) -> bool {
    exists|i: int| 0 <= i < rows.len() && (#[trigger] rows[i]).0 == key
}

/// The rows of a call: a terminal command that names no directory also gets
/// the current one, where it is known.
pub open spec fn call_rows(
    name: Seq<char>,
    rows: Seq<(Seq<char>, Seq<char>)>,
    current_dir: Option<Seq<char>>,
) -> Seq<(Seq<char>, Seq<char>)> {
    if name == "run_terminal_command"@ && !has_row(rows, "working_dir"@) {
        match current_dir {
            Some(dir) => rows.push(("working_dir"@, dir)),
            None => rows,
        }
    } else {
        rows
    }
}

/// Adds the directory that a terminal command runs in, where it names none.
pub fn with_working_dir(
    name: &str,
    rows: Vec<(String, String)>,
    current_dir: Option<String>,
) -> (r: Vec<(String, String)>)
    ensures
        pair_views(r@) == call_rows(name@, pair_views(rows@), opt_view(current_dir)),
{
    let mut rows: Vec<(String, String)> = rows;
    let ghost before = pair_views(rows@);
    if same(name, "run_terminal_command") {
        let mut found: bool = false;
        let mut i: usize = 0;
        while i < rows.len()
            invariant
                i <= rows.len(),
                before == pair_views(rows@),
                found <==> exists|k: int|
                    0 <= k < i && (#[trigger] before[k]).0 == "working_dir"@,
            decreases rows.len() - i,
        {
            assert(before[i as int].0 == rows@[i as int].0@);
            if same(&rows[i].0, "working_dir") {
                found = true;
            }
            i = i + 1;
        }
        assert(found == has_row(before, "working_dir"@));
        if !found {
            match current_dir {
                Some(dir) => {
                    let row: (String, String) = (String::from_str("working_dir"), dir);
                    rows.push(row);
                    assert(pair_views(rows@) == before.push((row.0@, row.1@)));
                },
                None => {},
            }
        }
    }
    rows
}

/// The arguments of a tool call field by field. `current_dir` is where the
/// process is, if that is known.
pub fn tool_call_fields(name: &str, arguments: &str, current_dir: Option<String>) -> (r: Vec<
    (String, String),
>)
    ensures
        pair_views(r@) == call_rows(name@, json_rows(arguments@), opt_view(current_dir)),
{
    with_working_dir(name, json_fields(arguments), current_dir)
}

/// Whether an answer, in lower case, is a yes.
pub open spec fn is_yes(lowered: Seq<char>) -> bool {
    lowered == "y"@ || lowered == "yes"@
}

/// Whether an answer to a yes-or-no question allows it; anything but an
/// explicit yes does not.
pub fn parse_yes_no(input: &str) -> (r: bool)
    ensures
        r == is_yes(lowercase(trim(input@))),
        cases_agree(trim(input@)),
{
    let chars: Vec<char> = chars_of(input);
    let response: String = to_lowercase(&string_of(trim_chars(&chars)));
    yes_word(&response)
}

/// Whether a word in lower case is a yes.
pub fn yes_word(lowered: &str) -> (r: bool)
    ensures
        r == is_yes(lowered@),
{
    same(lowered, "y") || same(lowered, "yes")
}

/// What a word in lower case switches to.
pub open spec fn bool_of(lowered: Seq<char>) -> Option<bool> {
    if lowered == "true"@ || lowered == "on"@ || lowered == "yes"@ || lowered == "1"@ {
        Some(true)
    } else if lowered == "false"@ || lowered == "off"@ || lowered == "no"@ || lowered == "0"@ {
        Some(false)
    } else {
        None
    }
}

/// What a word in lower case switches to.
pub fn bool_word(lowered: &str) -> (r: Option<bool>)
    ensures
        r == bool_of(lowered@),
{
    if same(lowered, "true") || same(lowered, "on") || same(lowered, "yes") || same(lowered, "1") {
        Some(true)
    } else if same(lowered, "false") || same(lowered, "off") || same(lowered, "no") || same(
        lowered,
        "0",
    ) {
        Some(false)
    } else {
        None
    }
}

/// Reads a switch; a word that is none is named in the error.
pub fn parse_bool(s: &str) -> (r: Result<bool, String>)
    ensures
        r is Ok <==> bool_of(lowercase(s@)) is Some,
        r matches Ok(b) ==> bool_of(lowercase(s@)) == Some(b),
        r matches Err(e) ==> e@ == "Invalid boolean value: '"@ + s@
            + "'. Use true/false, on/off, yes/no, or 1/0"@,
        cases_agree(s@),
{
    let lowered: String = to_lowercase(s);
    match bool_word(&lowered) {
        Some(b) => Ok(b),
        None => Err(
            concat3(
                "Invalid boolean value: '",
                s,
                "'. Use true/false, on/off, yes/no, or 1/0",
            ),
        ),
    }
}

/// What a submitted line turned out to be.
#[derive(Debug, Clone, PartialEq, Eq)]
pub enum Submission {
    Message(String),
    SetModel(String),
    ShowModel,
    SetAgentic(bool),
    SetEffort(Option<String>),
    ResetEffort,
    ToggleVerbose,
    SetVerbose(bool),
    ShowVerbose,
    SetStream(bool),
    ShowStream,
    SetTitle(String),
    ShowTitle,
    SetMaxIterations(Option<usize>),
    ResetMaxIterations,
    SetTemperature(Option<Temperature>),
    ResetTemperature,
    ShowTemperature,
    SetApproval { category: String, enabled: bool },
    ShowApproval,
    SetSandbox(bool),
    ShowSandbox,
    ShowStatus,
    UnknownCommand(String),
}

/// A submission with the characters of its texts.
pub enum SubmissionView {
    Message(Seq<char>),
    SetModel(Seq<char>),
    ShowModel,
    SetAgentic(bool),
    SetEffort(Option<Seq<char>>),
    ResetEffort,
    ToggleVerbose,
    SetVerbose(bool),
    ShowVerbose,
    SetStream(bool),
    ShowStream,
    SetTitle(Seq<char>),
    ShowTitle,
    SetMaxIterations(Option<usize>),
    ResetMaxIterations,
    SetTemperature(Option<Temperature>),
    ResetTemperature,
    ShowTemperature,
    SetApproval { category: Seq<char>, enabled: bool },
    ShowApproval,
    SetSandbox(bool),
    ShowSandbox,
    ShowStatus,
    UnknownCommand(Seq<char>),
}

impl View for Submission {
    type V = SubmissionView;

    open spec fn view(&self) -> SubmissionView {
        match self {
            Submission::Message(s) => SubmissionView::Message(s@),
            Submission::SetModel(s) => SubmissionView::SetModel(s@),
            Submission::ShowModel => SubmissionView::ShowModel,
            Submission::SetAgentic(b) => SubmissionView::SetAgentic(*b),
            Submission::SetEffort(s) => SubmissionView::SetEffort(opt_view(*s)),
            Submission::ResetEffort => SubmissionView::ResetEffort,
            Submission::ToggleVerbose => SubmissionView::ToggleVerbose,
            Submission::SetVerbose(b) => SubmissionView::SetVerbose(*b),
            Submission::ShowVerbose => SubmissionView::ShowVerbose,
            Submission::SetStream(b) => SubmissionView::SetStream(*b),
            Submission::ShowStream => SubmissionView::ShowStream,
            Submission::SetTitle(s) => SubmissionView::SetTitle(s@),
            Submission::ShowTitle => SubmissionView::ShowTitle,
            Submission::SetMaxIterations(n) => SubmissionView::SetMaxIterations(*n),
            Submission::ResetMaxIterations => SubmissionView::ResetMaxIterations,
            Submission::SetTemperature(t) => SubmissionView::SetTemperature(*t),
            Submission::ResetTemperature => SubmissionView::ResetTemperature,
            Submission::ShowTemperature => SubmissionView::ShowTemperature,
            Submission::SetApproval { category, enabled } => SubmissionView::SetApproval {
                category: category@,
                enabled: *enabled,
            },
            Submission::ShowApproval => SubmissionView::ShowApproval,
            Submission::SetSandbox(b) => SubmissionView::SetSandbox(*b),
            Submission::ShowSandbox => SubmissionView::ShowSandbox,
            Submission::ShowStatus => SubmissionView::ShowStatus,
            Submission::UnknownCommand(s) => SubmissionView::UnknownCommand(s@),
        }
    }
}

/// The view of an optional submission.
pub open spec fn opt_submission(s: Option<Submission>) -> Option<SubmissionView> {
    match s {
        Some(x) => Some(x@),
        None => None,
    }
}

/// What stands behind a command's name: white space, then something.
pub open spec fn argument_text(trimmed: Seq<char>, name: Seq<char>) -> Option<Seq<char>> {
    match strip_prefix(trimmed, name) {
        Some(rest) => if starts_white(rest) && trim(rest).len() > 0 {
            Some(trim(rest))
        } else {
            None
        },
        None => None,
    }
}

/// What stands behind a command's name.
fn argument<'a>(trimmed: &'a [char], name: &str) -> (r: Option<&'a [char]>)
    ensures
        r is Some <==> argument_text(trimmed@, name@) is Some,
        r matches Some(value) ==> argument_text(trimmed@, name@) == Some(value@),
{
    match strip_prefix_chars(trimmed, name) {
        Some(rest) => {
            if !starts_with_whitespace(rest) {
                return None;
            }
            let value: &[char] = trim_chars(rest);
            if value.len() == 0 {
                None
            } else {
                Some(value)
            }
        },
        None => None,
    }
}

/// Whether a line is a command's name, with or without something behind it.
pub open spec fn is_bare_command(trimmed: Seq<char>, name: Seq<char>) -> bool {
    match strip_prefix(trimmed, name) {
        Some(rest) => rest.len() == 0 || starts_white(rest),
        None => false,
    }
}

fn bare_command(trimmed: &[char], name: &str) -> (r: bool)
    ensures
        r == is_bare_command(trimmed@, name@),
{
    match strip_prefix_chars(trimmed, name) {
        Some(rest) => rest.len() == 0 || starts_with_whitespace(rest),
        None => false,
    }
}

/// Whether a line is a command's name with nothing but white space behind it.
pub open spec fn is_alone(trimmed: Seq<char>, name: Seq<char>) -> bool {
    match strip_prefix(trimmed, name) {
        Some(rest) => trim(rest).len() == 0,
        None => false,
    }
}

fn alone(trimmed: &[char], name: &str) -> (r: bool)
    ensures
        r == is_alone(trimmed@, name@),
{
    match strip_prefix_chars(trimmed, name) {
        Some(rest) => trim_chars(rest).len() == 0,
        None => false,
    }
}

/// Whether a text is the given word, in any case.
pub open spec fn is_word(s: Seq<char>, word: Seq<char>) -> bool {
    ascii_lowercase(s) == ascii_lowercase(word)
}

/// `/model` shows the model, `/model <name>` sets it.
pub open spec fn model_command(t: Seq<char>) -> Option<SubmissionView> {
    match strip_prefix(t, "/model"@) {
        Some(rest) => if rest.len() == 0 {
            Some(SubmissionView::ShowModel)
        } else if starts_white(rest) {
            if trim(rest).len() == 0 {
                Some(SubmissionView::ShowModel)
            } else {
                Some(SubmissionView::SetModel(trim(rest)))
            }
        } else {
            None
        },
        None => None,
    }
}

fn read_model_command(t: &[char]) -> (r: Option<Submission>)
    ensures
        opt_submission(r) == model_command(t@),
{
    match strip_prefix_chars(t, "/model") {
        Some(rest) => {
            if rest.len() == 0 {
                return Some(Submission::ShowModel);
            }
            if starts_with_whitespace(rest) {
                let name: &[char] = trim_chars(rest);
                return if name.len() == 0 {
                    Some(Submission::ShowModel)
                } else {
                    Some(Submission::SetModel(string_of(name)))
                };
            }
            None
        },
        None => None,
    }
}

/// `/agent`, `/ask` and `/verbose`.
pub open spec fn mode_command(t: Seq<char>) -> Option<SubmissionView> {
    if is_bare_command(t, "/agent"@) {
        Some(SubmissionView::SetAgentic(true))
    } else if is_bare_command(t, "/ask"@) {
        Some(SubmissionView::SetAgentic(false))
    } else if is_bare_command(t, "/verbose"@) {
        Some(SubmissionView::ToggleVerbose)
    } else {
        None
    }
}

fn read_mode_command(t: &[char]) -> (r: Option<Submission>)
    ensures
        opt_submission(r) == mode_command(t@),
{
    if bare_command(t, "/agent") {
        Some(Submission::SetAgentic(true))
    } else if bare_command(t, "/ask") {
        Some(Submission::SetAgentic(false))
    } else if bare_command(t, "/verbose") {
        Some(Submission::ToggleVerbose)
    } else {
        None
    }
}

/// `/effort <level>`, `/effort clear` and `/effort default`.
pub open spec fn effort_command(t: Seq<char>) -> Option<SubmissionView> {
    match argument_text(t, "/effort"@) {
        Some(value) => Some(
            if is_word(value, "clear"@) {
                SubmissionView::SetEffort(None)
            } else if is_word(value, "default"@) {
                SubmissionView::ResetEffort
            } else {
                SubmissionView::SetEffort(Some(value))
            },
        ),
        None => None,
    }
}

fn read_effort_command(t: &[char]) -> (r: Option<Submission>)
    ensures
        opt_submission(r) == effort_command(t@),
{
    match argument(t, "/effort") {
        Some(value) => Some(
            if same_ignoring_case(value, "clear") {
                Submission::SetEffort(None)
            } else if same_ignoring_case(value, "default") {
                Submission::ResetEffort
            } else {
                Submission::SetEffort(Some(string_of(value)))
            },
        ),
        None => None,
    }
}

/// `/max-iterations` with a positive number, `clear` or `default`.
pub open spec fn iterations_command(t: Seq<char>) -> Option<SubmissionView> {
    match argument_text(t, "/max-iterations"@) {
        Some(value) => if is_word(value, "clear"@) {
            Some(SubmissionView::SetMaxIterations(None))
        } else if is_word(value, "default"@) {
            Some(SubmissionView::ResetMaxIterations)
        } else {
            match parse_unsigned(value, usize::MAX as nat) {
                Some(n) => if n > 0 {
                    Some(SubmissionView::SetMaxIterations(Some(n as usize)))
                } else {
                    None
                },
                None => None,
            }
        },
        None => None,
    }
}

fn read_iterations_command(t: &[char]) -> (r: Option<Submission>)
    ensures
        opt_submission(r) == iterations_command(t@),
{
    match argument(t, "/max-iterations") {
        Some(value) => {
            if same_ignoring_case(value, "clear") {
                return Some(Submission::SetMaxIterations(None));
            }
            if same_ignoring_case(value, "default") {
                return Some(Submission::ResetMaxIterations);
            }
            match parse_usize(value) {
                Some(n) => if n > 0 {
                    Some(Submission::SetMaxIterations(Some(n)))
                } else {
                    None
                },
                None => None,
            }
        },
        None => None,
    }
}

/// The argument of `/temperature` or of its short form `/temp`.
pub open spec fn temperature_text(t: Seq<char>) -> Option<Seq<char>> {
    match argument_text(t, "/temperature"@) {
        Some(value) => Some(value),
        None => argument_text(t, "/temp"@),
    }
}

/// `/temperature` with a number, `clear` or `default`. `number` is what the
/// argument reads as in floating point.
pub open spec fn temperature_command(t: Seq<char>, number: Option<Temperature>) -> Option<
    SubmissionView,
> {
    match temperature_text(t) {
        Some(value) => if is_word(value, "clear"@) {
            Some(SubmissionView::SetTemperature(None))
        } else if is_word(value, "default"@) {
            Some(SubmissionView::ResetTemperature)
        } else {
            match number {
                Some(n) => if n.usable() {
                    Some(SubmissionView::SetTemperature(Some(n)))
                } else {
                    None
                },
                None => None,
            }
        },
        None => None,
    }
}

fn temperature_value<'a>(t: &'a [char]) -> (r: Option<&'a [char]>)
    ensures
        r is Some <==> temperature_text(t@) is Some,
        r matches Some(value) ==> temperature_text(t@) == Some(value@),
{
    match argument(t, "/temperature") {
        Some(value) => Some(value),
        None => argument(t, "/temp"),
    }
}

fn read_temperature_command(t: &[char], number: Option<Temperature>) -> (r: Option<Submission>)
    ensures
        opt_submission(r) == temperature_command(t@, number),
{
    match temperature_value(t) {
        Some(value) => {
            if same_ignoring_case(value, "clear") {
                return Some(Submission::SetTemperature(None));
            }
            if same_ignoring_case(value, "default") {
                return Some(Submission::ResetTemperature);
            }
            match number {
                Some(n) => if n.is_usable() {
                    Some(Submission::SetTemperature(Some(n)))
                } else {
                    None
                },
                None => None,
            }
        },
        None => None,
    }
}

/// The argument of a temperature command on this line, to be read as a
/// number in floating point before the line is classified.
pub fn temperature_argument(text: &str) -> (r: Option<String>)
    ensures
        opt_view(r) == temperature_text(trim(text@)),
{
    let chars: Vec<char> = chars_of(text);
    let trimmed: &[char] = trim_chars(&chars);
    match temperature_value(trimmed) {
        Some(value) => Some(string_of(value)),
        None => None,
    }
}

/// `/approval`, `/sandbox` and `/status` on their own, which show something.
pub open spec fn show_command(t: Seq<char>) -> Option<SubmissionView> {
    if is_alone(t, "/approval"@) {
        Some(SubmissionView::ShowApproval)
    } else if is_alone(t, "/sandbox"@) {
        Some(SubmissionView::ShowSandbox)
    } else if is_alone(t, "/status"@) {
        Some(SubmissionView::ShowStatus)
    } else {
        None
    }
}

fn read_show_command(t: &[char]) -> (r: Option<Submission>)
    ensures
        opt_submission(r) == show_command(t@),
{
    if alone(t, "/approval") {
        Some(Submission::ShowApproval)
    } else if alone(t, "/sandbox") {
        Some(Submission::ShowSandbox)
    } else if alone(t, "/status") {
        Some(Submission::ShowStatus)
    } else {
        None
    }
}

/// `/sandbox <on|off>`.
pub open spec fn sandbox_command(t: Seq<char>) -> Option<SubmissionView> {
    match argument_text(t, "/sandbox"@) {
        Some(value) => match bool_of(lowercase(value)) {
            Some(enabled) => Some(SubmissionView::SetSandbox(enabled)),
            None => None,
        },
        None => None,
    }
}

fn read_sandbox_command(t: &[char]) -> (r: Option<Submission>)
    ensures
        opt_submission(r) == sandbox_command(t@),
{
    match argument(t, "/sandbox") {
        Some(value) => match parse_bool(&string_of(value)) {
            Ok(enabled) => Some(Submission::SetSandbox(enabled)),
            Err(_) => None,
        },
        None => None,
    }
}

/// Whether a word names what an approval switch covers.
pub open spec fn is_category(word: Seq<char>) -> bool {
    word == "read"@ || word == "write"@ || word == "terminal"@ || word == "all"@
}

/// `/approval <read|write|terminal|all> <on|off>`: exactly two words.
pub open spec fn approval_command(t: Seq<char>) -> Option<SubmissionView> {
    match argument_text(t, "/approval"@) {
        Some(rest) => {
            let w = words(rest);
            if w.len() == 2 && is_category(w[0]) {
                match bool_of(lowercase(w[1])) {
                    Some(enabled) => Some(
                        SubmissionView::SetApproval { category: w[0], enabled },
                    ),
                    None => None,
                }
            } else {
                None
            }
        },
        None => None,
    }
}

fn read_approval_command(t: &[char]) -> (r: Option<Submission>)
    ensures
        opt_submission(r) == approval_command(t@),
{
    match argument(t, "/approval") {
        Some(rest) => {
            let w: Vec<Vec<char>> = words_of(rest);
            assert(views(w@).len() == w@.len());
            if w.len() != 2 {
                return None;
            }
            assert(views(w@)[0] == w@[0]@ && views(w@)[1] == w@[1]@);
            let category: String = string_of(&w[0]);
            if !(same(&category, "read") || same(&category, "write") || same(&category, "terminal")
                || same(&category, "all")) {
                return None;
            }
            match parse_bool(&string_of(&w[1])) {
                Ok(enabled) => Some(Submission::SetApproval { category, enabled }),
                Err(_) => None,
            }
        },
        None => None,
    }
}

/// The word behind a leading slash: the first one, or all that is left where
/// there is none.
pub open spec fn slash_word(t: Seq<char>) -> Option<Seq<char>> {
    match strip_prefix(t, "/"@) {
        Some(rest) => Some(
            if words(rest).len() > 0 {
                words(rest)[0]
            } else {
                rest
            },
        ),
        None => None,
    }
}

fn command_word(t: &[char]) -> (r: Option<String>)
    ensures
        opt_view(r) == slash_word(t@),
{
    match strip_prefix_chars(t, "/") {
        Some(rest) => {
            let w: Vec<Vec<char>> = words_of(rest);
            assert(views(w@).len() == w@.len());
            if w.len() > 0 {
                assert(views(w@)[0] == w@[0]@);
                Some(string_of(&w[0]))
            } else {
                Some(string_of(rest))
            }
        },
        None => None,
    }
}

/// The names of the commands.
pub open spec fn known_commands() -> Seq<Seq<char>> {
    seq![
        "model"@,
        "agent"@,
        "ask"@,
        "effort"@,
        "max-iterations"@,
        "temperature"@,
        "temp"@,
        "approval"@,
        "sandbox"@,
        "status"@,
        "verbose"@,
    ]
}

/// The names of the commands.
pub fn command_names() -> (r: Vec<&'static str>)
    ensures
        r@.map_values(|s: &'static str| s@) == known_commands(),
{
    let names: Vec<&'static str> = vec![
        "model",
        "agent",
        "ask",
        "effort",
        "max-iterations",
        "temperature",
        "temp",
        "approval",
        "sandbox",
        "status",
        "verbose",
    ];
    assert(names@.map_values(|s: &'static str| s@) =~= known_commands());
    names
}

/// How far a misspelling may be from the command it is taken for.
pub open spec fn allowed_distance(word_length: nat) -> nat {
    if word_length >= 5 {
        2
    } else {
        1
    }
}

pub fn max_distance_for(word_length: usize) -> (r: usize)
    ensures
        r == allowed_distance(word_length as nat),
{
    if word_length >= 5 {
        2
    } else {
        1
    }
}

pub open spec fn least(a: nat, b: nat) -> nat {
    if a <= b {
        a
    } else {
        b
    }
}

/// The fewest insertions, deletions and substitutions of single characters
/// that turn one text into the other.
pub open spec fn distance(a: Seq<char>, b: Seq<char>) -> nat
    decreases a.len() + b.len(),
{
    if a.len() == 0 {
        b.len()
    } else if b.len() == 0 {
        a.len()
    } else {
        let substitution = distance(a.drop_last(), b.drop_last()) + if a.last() == b.last() {
            0nat
        } else {
            1nat
        };
        let deletion = distance(a.drop_last(), b) + 1;
        let insertion = distance(a, b.drop_last()) + 1;
        least(least(substitution, deletion), insertion)
    }
}

/// The distance is no greater than the longer text's length, and no smaller
/// than the difference of the two lengths.
pub proof fn distance_is_bounded_by_the_lengths(a: Seq<char>, b: Seq<char>)
    ensures
        distance(a, b) <= if a.len() >= b.len() {
            a.len()
        } else {
            b.len()
        },
        distance(a, b) >= a.len() - b.len(),
        distance(a, b) >= b.len() - a.len(),
    decreases a.len() + b.len(),
{
    if a.len() > 0 && b.len() > 0 {
        distance_is_bounded_by_the_lengths(a.drop_last(), b.drop_last());
        distance_is_bounded_by_the_lengths(a.drop_last(), b);
        distance_is_bounded_by_the_lengths(a, b.drop_last());
    }
}

/// The distance is the same in both directions.
pub proof fn distance_is_symmetric(a: Seq<char>, b: Seq<char>)
    ensures
        distance(a, b) == distance(b, a),
    decreases a.len() + b.len(),
{
    if a.len() > 0 && b.len() > 0 {
        distance_is_symmetric(a.drop_last(), b.drop_last());
        distance_is_symmetric(a.drop_last(), b);
        distance_is_symmetric(a, b.drop_last());
    }
}

/// The distance is zero exactly between a text and itself.
pub proof fn distance_is_zero_only_to_itself(a: Seq<char>, b: Seq<char>)
    ensures
        distance(a, b) == 0 <==> a == b,
    decreases a.len() + b.len(),
{
    if a.len() > 0 && b.len() > 0 {
        distance_is_zero_only_to_itself(a.drop_last(), b.drop_last());
        if a == b {
            assert(distance(a.drop_last(), b.drop_last()) == 0);
        }
        if distance(a, b) == 0 {
            assert(a.last() == b.last());
            assert(a == a.drop_last().push(a.last()));
            assert(b == b.drop_last().push(b.last()));
        }
    } else if a.len() == 0 && b.len() == 0 {
        assert(a == b);
    }
}

/// Whether one insertion, deletion or substitution of a single character turns
/// one text into the other.
pub open spec fn is_edit(a: Seq<char>, b: Seq<char>) -> bool {
    ||| exists|i: int, c: char| 0 <= i <= a.len() && b == #[trigger] a.insert(i, c)
    ||| exists|i: int| 0 <= i < a.len() && b == #[trigger] a.remove(i)
    ||| exists|i: int, c: char| 0 <= i < a.len() && b == #[trigger] a.update(i, c)
}

/// Whether so many edits of single characters turn one text into the other.
pub open spec fn turns_into(a: Seq<char>, b: Seq<char>, edits: nat) -> bool
    decreases edits,
{
    if edits == 0 {
        a == b
    } else {
        exists|c: Seq<char>|
            #[trigger] is_edit(a, c) && turns_into(c, b, (edits - 1) as nat)
    }
}

/// The distance is the least number of edits: so many turn one text into the
/// other, and no fewer do.
pub proof fn distance_is_the_fewest_edits(a: Seq<char>, b: Seq<char>)
    ensures
        turns_into(a, b, distance(a, b)),
        forall|edits: nat| #[trigger] turns_into(a, b, edits) ==> distance(a, b) <= edits,
{
    the_distance_suffices(a, b);
    assert forall|edits: nat| #[trigger] turns_into(a, b, edits) implies distance(a, b)
        <= edits by {
        no_fewer_edits_suffice(a, b, edits);
    }
}

/// By way of a third text it is no shorter.
pub proof fn distance_obeys_the_triangle_inequality(a: Seq<char>, b: Seq<char>, c: Seq<char>)
    ensures
        distance(a, c) <= distance(a, b) + distance(b, c),
{
    the_distance_suffices(a, b);
    the_distance_suffices(b, c);
    edits_add_up(a, b, c, distance(a, b), distance(b, c));
    no_fewer_edits_suffice(a, c, distance(a, b) + distance(b, c));
}

proof fn edits_add_up(a: Seq<char>, b: Seq<char>, c: Seq<char>, first: nat, second: nat)
    requires
        turns_into(a, b, first),
        turns_into(b, c, second),
    ensures
        turns_into(a, c, first + second),
    decreases first,
{
    if first > 0 {
        let next = choose|next: Seq<char>|
            #[trigger] is_edit(a, next) && turns_into(next, b, (first - 1) as nat);
        edits_add_up(next, b, c, (first - 1) as nat, second);
        assert((first + second - 1) as nat == (first - 1) as nat + second);
        assert(is_edit(a, next));
    }
}

proof fn no_fewer_edits_suffice(a: Seq<char>, b: Seq<char>, edits: nat)
    requires
        turns_into(a, b, edits),
    ensures
        distance(a, b) <= edits,
    decreases edits,
{
    if edits == 0 {
        distance_is_zero_only_to_itself(a, b);
    } else {
        let next = choose|next: Seq<char>|
            #[trigger] is_edit(a, next) && turns_into(next, b, (edits - 1) as nat);
        no_fewer_edits_suffice(next, b, (edits - 1) as nat);
        an_edit_counts_once(a, next, b);
    }
}

proof fn an_edit_counts_once(a: Seq<char>, next: Seq<char>, b: Seq<char>)
    requires
        is_edit(a, next),
    ensures
        distance(a, b) <= distance(next, b) + 1,
{
    if exists|i: int, c: char| 0 <= i <= a.len() && next == #[trigger] a.insert(i, c) {
        let (i, c) = choose|i: int, c: char|
            0 <= i <= a.len() && next == #[trigger] a.insert(i, c);
        assert(next.remove(i) =~= a);
        a_deletion_counts_once(next, i, b);
    } else if exists|i: int| 0 <= i < a.len() && next == #[trigger] a.remove(i) {
        let i = choose|i: int| 0 <= i < a.len() && next == #[trigger] a.remove(i);
        a_deletion_counts_once(a, i, b);
    } else {
        let (i, c) = choose|i: int, c: char|
            0 <= i < a.len() && next == #[trigger] a.update(i, c);
        a_substitution_counts_once(a, i, c, b);
    }
}

proof fn a_deletion_counts_once(a: Seq<char>, i: int, b: Seq<char>)
    requires
        0 <= i < a.len(),
    ensures
        distance(a, b) <= distance(a.remove(i), b) + 1,
        distance(a.remove(i), b) <= distance(a, b) + 1,
    decreases a.len() + b.len(),
{
    let next = a.remove(i);
    if b.len() > 0 {
        let shorter = b.drop_last();
        if i == a.len() - 1 {
            assert(next =~= a.drop_last());
            a_deletion_counts_once(a, i, shorter);
            assert(distance(next, b) <= distance(next, shorter) + 1);
        } else {
            assert(next.drop_last() =~= a.drop_last().remove(i));
            assert(next.last() == a.last());
            a_deletion_counts_once(a.drop_last(), i, shorter);
            a_deletion_counts_once(a.drop_last(), i, b);
            a_deletion_counts_once(a, i, shorter);
        }
    }
}

proof fn a_substitution_counts_once(a: Seq<char>, i: int, c: char, b: Seq<char>)
    requires
        0 <= i < a.len(),
    ensures
        distance(a, b) <= distance(a.update(i, c), b) + 1,
    decreases a.len() + b.len(),
{
    let next = a.update(i, c);
    if b.len() > 0 {
        a_substitution_counts_once(a, i, c, b.drop_last());
        if i == a.len() - 1 {
            assert(next.drop_last() =~= a.drop_last());
        } else {
            assert(next.drop_last() =~= a.drop_last().update(i, c));
            assert(next.last() == a.last());
            a_substitution_counts_once(a.drop_last(), i, c, b.drop_last());
            a_substitution_counts_once(a.drop_last(), i, c, b);
        }
    }
}

proof fn the_distance_suffices(a: Seq<char>, b: Seq<char>)
    ensures
        turns_into(a, b, distance(a, b)),
    decreases a.len() + b.len(),
{
    let edits = distance(a, b);
    if a.len() == 0 && b.len() == 0 {
        assert(a =~= b);
    } else if a.len() > 0 && (b.len() == 0 || edits == distance(a.drop_last(), b) + 1) {
        // The last character goes.
        the_distance_suffices(a.drop_last(), b);
        assert(a.remove(a.len() - 1) =~= a.drop_last());
        assert(is_edit(a, a.drop_last()));
        assert((edits - 1) as nat == distance(a.drop_last(), b));
    } else if a.len() == 0 || edits == distance(a, b.drop_last()) + 1 {
        // One comes behind.
        let c = b.last();
        the_distance_suffices(a, b.drop_last());
        what_stands_behind_is_untouched(a, b.drop_last(), c, distance(a, b.drop_last()));
        assert(a.insert(a.len() as int, c) =~= a.push(c));
        assert(is_edit(a, a.push(c)));
        assert(b.drop_last().push(c) =~= b);
        assert((edits - 1) as nat == distance(a, b.drop_last()));
    } else {
        let c = b.last();
        let kept = distance(a.drop_last(), b.drop_last());
        the_distance_suffices(a.drop_last(), b.drop_last());
        what_stands_behind_is_untouched(a.drop_last(), b.drop_last(), c, kept);
        assert(b.drop_last().push(c) =~= b);
        if a.last() == c {
            assert(a.drop_last().push(c) =~= a);
        } else {
            assert(a.update(a.len() - 1, c) =~= a.drop_last().push(c));
            assert(is_edit(a, a.drop_last().push(c)));
            assert((edits - 1) as nat == kept);
        }
    }
}

proof fn what_stands_behind_is_untouched(a: Seq<char>, b: Seq<char>, c: char, edits: nat)
    requires
        turns_into(a, b, edits),
    ensures
        turns_into(a.push(c), b.push(c), edits),
    decreases edits,
{
    if edits > 0 {
        let next = choose|next: Seq<char>|
            #[trigger] is_edit(a, next) && turns_into(next, b, (edits - 1) as nat);
        what_stands_behind_is_untouched(next, b, c, (edits - 1) as nat);
        if exists|i: int, x: char| 0 <= i <= a.len() && next == #[trigger] a.insert(i, x) {
            let (i, x) = choose|i: int, x: char|
                0 <= i <= a.len() && next == #[trigger] a.insert(i, x);
            assert(a.push(c).insert(i, x) =~= next.push(c));
        } else if exists|i: int| 0 <= i < a.len() && next == #[trigger] a.remove(i) {
            let i = choose|i: int| 0 <= i < a.len() && next == #[trigger] a.remove(i);
            assert(a.push(c).remove(i) =~= next.push(c));
        } else {
            let (i, x) = choose|i: int, x: char|
                0 <= i < a.len() && next == #[trigger] a.update(i, x);
            assert(a.push(c).update(i, x) =~= next.push(c));
        }
        assert(is_edit(a.push(c), next.push(c)));
    }
}

/// The fewest single-character edits that turn one text into the other.
pub fn edit_distance(a: &str, b: &str) -> (r: usize)
    ensures
        r == distance(a@, b@),
{
    let a_chars: Vec<char> = chars_of(a);
    let b_chars: Vec<char> = chars_of(b);
    let n: usize = b_chars.len();
    let mut previous: Vec<u128> = Vec::new();
    let mut current: Vec<u128> = Vec::new();
    previous.push(0);
    current.push(0);
    let mut k: usize = 0;
    while k < n
        invariant
            k <= n,
            n == b_chars@.len(),
            previous@.len() == k + 1,
            current@.len() == k + 1,
            forall|j: int| 0 <= j <= k ==> #[trigger] previous@[j] == j,
        decreases n - k,
    {
        k = k + 1;
        previous.push(k as u128);
        current.push(0);
    }
    assert forall|j: int| 0 <= j <= n implies #[trigger] previous@[j] == distance(
        a_chars@.take(0),
        b_chars@.take(j),
    ) by {}
    let mut i: usize = 0;
    while i < a_chars.len()
        invariant
            i <= a_chars.len(),
            n == b_chars@.len(),
            previous@.len() == n + 1,
            current@.len() == n + 1,
            forall|j: int|
                0 <= j <= n ==> #[trigger] previous@[j] == distance(
                    a_chars@.take(i as int),
                    b_chars@.take(j),
                ),
        decreases a_chars.len() - i,
    {
        current.set(0, (i + 1) as u128);
        assert(a_chars@.take(i + 1).drop_last() == a_chars@.take(i as int));
        let mut j: usize = 0;
        while j < n
            invariant
                i < a_chars.len(),
                j <= n,
                n == b_chars@.len(),
                previous@.len() == n + 1,
                current@.len() == n + 1,
                a_chars@.take(i + 1).drop_last() == a_chars@.take(i as int),
                forall|m: int|
                    0 <= m <= n ==> #[trigger] previous@[m] == distance(
                        a_chars@.take(i as int),
                        b_chars@.take(m),
                    ),
                forall|m: int|
                    0 <= m <= j ==> #[trigger] current@[m] == distance(
                        a_chars@.take(i + 1),
                        b_chars@.take(m),
                    ),
            decreases n - j,
        {
            assert(b_chars@.take(j + 1).drop_last() == b_chars@.take(j as int));
            proof {
                distance_is_bounded_by_the_lengths(
                    a_chars@.take(i as int),
                    b_chars@.take(j as int),
                );
                distance_is_bounded_by_the_lengths(a_chars@.take(i as int), b_chars@.take(j + 1));
                distance_is_bounded_by_the_lengths(a_chars@.take(i + 1), b_chars@.take(j as int));
            }
            let substitution: u128 = previous[j] + if a_chars[i] != b_chars[j] {
                1
            } else {
                0
            };
            let deletion: u128 = previous[j + 1] + 1;
            let insertion: u128 = current[j] + 1;
            let first: u128 = if substitution <= deletion {
                substitution
            } else {
                deletion
            };
            let best: u128 = if first <= insertion {
                first
            } else {
                insertion
            };
            assert(best == distance(a_chars@.take(i + 1), b_chars@.take(j + 1)));
            current.set(j + 1, best);
            j = j + 1;
        }
        std::mem::swap(&mut previous, &mut current);
        i = i + 1;
    }
    assert(a_chars@.take(i as int) == a@);
    assert(b_chars@.take(n as int) == b@);
    proof {
        distance_is_bounded_by_the_lengths(a@, b@);
    }
    previous[n] as usize
}

/// Whether the command at `i` is close enough to a word without being it.
pub open spec fn is_near(word: Seq<char>, i: int) -> bool {
    1 <= distance(word, known_commands()[i]) <= allowed_distance(word.len())
}

/// The closest of the first `n` commands to a word, the earlier of two that
/// are equally close.
pub open spec fn closest(word: Seq<char>, n: nat) -> Option<int>
    decreases n,
{
    if n == 0 {
        None
    } else {
        let i = n - 1;
        let before = closest(word, i as nat);
        if !is_near(word, i) {
            before
        } else {
            match before {
                Some(k) => if distance(word, known_commands()[i]) < distance(
                    word,
                    known_commands()[k],
                ) {
                    Some(i)
                } else {
                    before
                },
                None => Some(i),
            }
        }
    }
}

/// The command that a word looks like a misspelling of. A word with a slash
/// in it or of fewer than three characters is left alone, and so is one that
/// starts with the command and goes on.
pub open spec fn nearest_name(word: Seq<char>) -> Option<Seq<char>> {
    if word.contains('/') || word.len() < 3 {
        None
    } else {
        match closest(word, known_commands().len()) {
            Some(k) => {
                let name = known_commands()[k];
                if strip_prefix(word, name) is Some && word.len() > name.len() {
                    None
                } else {
                    Some(name)
                }
            },
            None => None,
        }
    }
}

/// The closest command is one of those that are near, none of the others is
/// closer, and none that is equally close comes before it. There is one
/// whenever some command is near.
pub proof fn the_closest_command_is_the_first_of_the_nearest(word: Seq<char>, n: nat)
    requires
        n <= known_commands().len(),
    ensures
        closest(word, n) matches Some(k) ==> 0 <= k < n && is_near(word, k) && (forall|j: int|
            0 <= j < n && is_near(word, j) ==> distance(word, known_commands()[k]) <= distance(
                word,
                #[trigger] known_commands()[j],
            )) && (forall|j: int|
            0 <= j < k && is_near(word, j) ==> distance(word, known_commands()[k]) < distance(
                word,
                #[trigger] known_commands()[j],
            )),
        closest(word, n) is None ==> forall|j: int| 0 <= j < n ==> !#[trigger] is_near(word, j),
    decreases n,
{
    if n > 0 {
        the_closest_command_is_the_first_of_the_nearest(word, (n - 1) as nat);
    }
}

/// A command is never suggested for itself, for a path, or for a longer word
/// that starts with it; and what is suggested is at most two edits away.
pub proof fn a_suggestion_is_close_and_never_a_path(word: Seq<char>)
    ensures
        nearest_name(word) matches Some(name) ==> known_commands().contains(name) && name != word
            && distance(word, name) <= 2 && !word.contains('/') && !(strip_prefix(word, name)
            is Some && word.len() > name.len()),
{
    the_closest_command_is_the_first_of_the_nearest(word, known_commands().len());
    match closest(word, known_commands().len()) {
        Some(k) => {
            distance_is_zero_only_to_itself(word, known_commands()[k]);
            assert(known_commands().contains(known_commands()[k]));
        },
        None => {},
    }
}

/// The command that a word looks like a misspelling of.
pub fn nearest_command(word: &str) -> (r: Option<&'static str>)
    ensures
        match r {
            Some(name) => nearest_name(word@) == Some(name@),
            None => nearest_name(word@) is None,
        },
{
    let chars: Vec<char> = chars_of(word);
    let length: usize = chars.len();
    if contains_char(&chars, '/') || length < 3 {
        return None;
    }
    let max_distance: usize = max_distance_for(length);
    let names: Vec<&'static str> = command_names();
    assert(known_commands().len() == names@.len());
    let mut best: Option<usize> = None;
    let mut best_distance: usize = 0;
    let mut i: usize = 0;
    while i < names.len()
        invariant
            i <= names.len(),
            chars@ == word@,
            names@.len() == known_commands().len(),
            names@.map_values(|s: &'static str| s@) == known_commands(),
            max_distance == allowed_distance(word@.len()),
            match best {
                Some(k) => k < i && closest(word@, i as nat) == Some(k as int) && best_distance
                    == distance(word@, known_commands()[k as int]),
                None => closest(word@, i as nat) is None,
            },
        decreases names.len() - i,
    {
        assert(known_commands()[i as int] == names@[i as int]@);
        let d: usize = edit_distance(word, names[i]);
        if 1 <= d && d <= max_distance {
            match best {
                Some(_) => {
                    if d < best_distance {
                        best = Some(i);
                        best_distance = d;
                    }
                },
                None => {
                    best = Some(i);
                    best_distance = d;
                },
            }
        }
        i = i + 1;
    }
    match best {
        Some(k) => {
            let name: &'static str = names[k];
            assert(known_commands()[k as int] == name@);
            let name_length: usize = chars_of(name).len();
            if strip_prefix_chars(&chars, name).is_some() && length > name_length {
                None
            } else {
                Some(name)
            }
        },
        None => None,
    }
}

/// How a command is used, for those that a line can get wrong.
pub open spec fn usage_text(word: Seq<char>) -> Option<Seq<char>> {
    if word == "effort"@ {
        Some("/"@ + word + " <level> | clear | default"@)
    } else if word == "max-iterations"@ {
        Some("/"@ + word + " <n> | clear | default (n must be a positive integer)"@)
    } else if word == "temperature"@ || word == "temp"@ {
        Some("/"@ + word + " <n> | clear | default (n must be 0 or greater)"@)
    } else if word == "approval"@ {
        Some("/"@ + word + " <read|write|terminal|all> <on|off>"@)
    } else if word == "sandbox"@ {
        Some("/"@ + word + " <on|off>"@)
    } else if word == "status"@ {
        Some("/"@ + word)
    } else {
        None
    }
}

fn command_usage(word: &str) -> (r: Option<String>)
    ensures
        opt_view(r) == usage_text(word@),
{
    if same(word, "effort") {
        Some(concat3("/", word, " <level> | clear | default"))
    } else if same(word, "max-iterations") {
        Some(concat3("/", word, " <n> | clear | default (n must be a positive integer)"))
    } else if same(word, "temperature") || same(word, "temp") {
        Some(concat3("/", word, " <n> | clear | default (n must be 0 or greater)"))
    } else if same(word, "approval") {
        Some(concat3("/", word, " <read|write|terminal|all> <on|off>"))
    } else if same(word, "sandbox") {
        Some(concat3("/", word, " <on|off>"))
    } else if same(word, "status") {
        Some(concat2("/", word))
    } else {
        None
    }
}

/// A line that starts with a slash and is a known command used wrongly, or
/// nearly a known command.
pub open spec fn unknown_command(t: Seq<char>) -> Option<SubmissionView> {
    match slash_word(t) {
        Some(word) => match usage_text(word) {
            Some(usage) => Some(
                SubmissionView::UnknownCommand(
                    "Unrecognized /"@ + word + " usage. Usage: "@ + usage,
                ),
            ),
            None => match nearest_name(word) {
                Some(nearest) => Some(
                    SubmissionView::UnknownCommand(
                        match usage_text(nearest) {
                            Some(usage) => "Unrecognized command /"@ + word + ". Did you mean /"@
                                + nearest + "? Usage: "@ + usage,
                            None => "Unrecognized command /"@ + word + ". Did you mean /"@ + nearest
                                + "?"@,
                        },
                    ),
                ),
                None => None,
            },
        },
        None => None,
    }
}

fn read_unknown_command(t: &[char]) -> (r: Option<Submission>)
    ensures
        opt_submission(r) == unknown_command(t@),
{
    match command_word(t) {
        Some(word) => {
            if let Some(usage) = command_usage(&word) {
                return Some(
                    Submission::UnknownCommand(
                        concat4("Unrecognized /", &word, " usage. Usage: ", &usage),
                    ),
                );
            }
            match nearest_command(&word) {
                Some(nearest) => {
                    let mut message: String = concat4(
                        "Unrecognized command /",
                        &word,
                        ". Did you mean /",
                        nearest,
                    );
                    match command_usage(nearest) {
                        Some(usage) => {
                            message.append("? Usage: ");
                            message.append(&usage);
                        },
                        None => {
                            message.append("?");
                        },
                    }
                    Some(Submission::UnknownCommand(message))
                },
                None => None,
            }
        },
        None => None,
    }
}

/// What a line is: the first of these readings that applies, and otherwise a
/// message.
pub open spec fn reading(text: Seq<char>, number: Option<Temperature>) -> SubmissionView {
    let t = trim(text);
    if model_command(t) is Some {
        model_command(t)->0
    } else if mode_command(t) is Some {
        mode_command(t)->0
    } else if effort_command(t) is Some {
        effort_command(t)->0
    } else if iterations_command(t) is Some {
        iterations_command(t)->0
    } else if temperature_command(t, number) is Some {
        temperature_command(t, number)->0
    } else if show_command(t) is Some {
        show_command(t)->0
    } else if sandbox_command(t) is Some {
        sandbox_command(t)->0
    } else if approval_command(t) is Some {
        approval_command(t)->0
    } else if unknown_command(t) is Some {
        unknown_command(t)->0
    } else {
        SubmissionView::Message(text)
    }
}

/// Tells a command from a message. `number` is what the argument of a
/// temperature command on this line reads as in floating point, if it is a
/// number at all (see [`temperature_argument`]).
pub fn classify(text: &str, number: Option<Temperature>) -> (r: Submission)
    ensures
        r@ == reading(text@, number),
{
    let chars: Vec<char> = chars_of(text);
    let trimmed: &[char] = trim_chars(&chars);
    if let Some(s) = read_model_command(trimmed) {
        return s;
    }
    if let Some(s) = read_mode_command(trimmed) {
        return s;
    }
    if let Some(s) = read_effort_command(trimmed) {
        return s;
    }
    if let Some(s) = read_iterations_command(trimmed) {
        return s;
    }
    if let Some(s) = read_temperature_command(trimmed, number) {
        return s;
    }
    if let Some(s) = read_show_command(trimmed) {
        return s;
    }
    if let Some(s) = read_sandbox_command(trimmed) {
        return s;
    }
    if let Some(s) = read_approval_command(trimmed) {
        return s;
    }
    if let Some(s) = read_unknown_command(trimmed) {
        return s;
    }
    Submission::Message(String::from_str(text))
}

/// A line that does not start with a slash, once trimmed, is always a message
/// and reaches the model word for word.
pub proof fn a_line_without_a_slash_is_a_message(text: Seq<char>, number: Option<Temperature>)
    requires
        trim(text).len() == 0 || trim(text)[0] != '/',
    ensures
        reading(text, number) == SubmissionView::Message(text),
{
    let t = trim(text);
    reveal_strlit("/");
    reveal_strlit("/model");
    reveal_strlit("/agent");
    reveal_strlit("/ask");
    reveal_strlit("/verbose");
    reveal_strlit("/effort");
    reveal_strlit("/max-iterations");
    reveal_strlit("/temperature");
    reveal_strlit("/temp");
    reveal_strlit("/approval");
    reveal_strlit("/sandbox");
    reveal_strlit("/status");
    lemma_no_slash_no_prefix(t, "/"@);
    lemma_no_slash_no_prefix(t, "/model"@);
    lemma_no_slash_no_prefix(t, "/agent"@);
    lemma_no_slash_no_prefix(t, "/ask"@);
    lemma_no_slash_no_prefix(t, "/verbose"@);
    lemma_no_slash_no_prefix(t, "/effort"@);
    lemma_no_slash_no_prefix(t, "/max-iterations"@);
    lemma_no_slash_no_prefix(t, "/temperature"@);
    lemma_no_slash_no_prefix(t, "/temp"@);
    lemma_no_slash_no_prefix(t, "/approval"@);
    lemma_no_slash_no_prefix(t, "/sandbox"@);
    lemma_no_slash_no_prefix(t, "/status"@);
}

proof fn lemma_no_slash_no_prefix(t: Seq<char>, name: Seq<char>)
    requires
        t.len() == 0 || t[0] != '/',
        name.len() > 0,
        name[0] == '/',
    ensures
        strip_prefix(t, name) is None,
{
    if name.len() <= t.len() {
        assert(t.take(name.len() as int)[0] == t[0]);
    }
}

/// What the settings table is made from.
pub struct SessionSettings<'a> {
    pub id: &'a str,
    pub title: &'a str,
    pub model: &'a str,
    pub agentic: bool,
    pub effort_level: Option<&'a str>,
    /// The temperature as it is shown.
    pub temperature: Option<&'a str>,
    pub max_iterations: Option<usize>,
    pub verbose: bool,
    pub sandbox: bool,
    pub approval: &'a ApprovalSettings,
}

pub open spec fn on_off_text(value: bool) -> Seq<char> {
    if value {
        "on"@
    } else {
        "off"@
    }
}

pub open spec fn gate_text(enabled: bool) -> Seq<char> {
    if enabled {
        "Ask"@
    } else {
        "Auto"@
    }
}

pub open spec fn seq_or(value: Option<Seq<char>>, fallback: Seq<char>) -> Seq<char> {
    match value {
        Some(s) => s,
        None => fallback,
    }
}

/// The rows of the settings table, in their order.
pub open spec fn table_of(
    id: Seq<char>,
    title: Seq<char>,
    model: Seq<char>,
    agentic: bool,
    effort_level: Option<Seq<char>>,
    temperature: Option<Seq<char>>,
    max_iterations: Option<usize>,
    sandbox: bool,
    verbose: bool,
    approval: ApprovalSettings,
) -> Seq<(Seq<char>, Seq<char>)> {
    seq![
        ("ID"@, id),
        ("Title"@, title),
        (
            "Mode"@,
            if agentic {
                "agent \u{2014} tools enabled"@
            } else {
                "ask \u{2014} no tools"@
            },
        ),
        ("Model"@, model),
        ("Effort"@, seq_or(effort_level, "none sent"@)),
        ("Temperature"@, seq_or(temperature, "none sent"@)),
        (
            "Max iterations"@,
            match max_iterations {
                Some(n) => decimal(n as nat),
                None => "not set"@,
            },
        ),
        ("Sandbox"@, on_off_text(sandbox)),
        ("Verbose"@, on_off_text(verbose)),
        (
            "Approval"@,
            "read "@ + gate_text(approval.read_disk) + " \u{b7} write "@ + gate_text(
                approval.write_disk,
            ) + " \u{b7} terminal "@ + gate_text(approval.terminal),
        ),
    ]
}

pub open spec fn settings_table(s: SessionSettings) -> Seq<(Seq<char>, Seq<char>)> {
    table_of(
        s.id@,
        s.title@,
        s.model@,
        s.agentic,
        str_view(s.effort_level),
        str_view(s.temperature),
        s.max_iterations,
        s.sandbox,
        s.verbose,
        *s.approval,
    )
}

pub(crate) fn on_off(value: bool) -> (r: String)
    ensures
        r@ == on_off_text(value),
{
    String::from_str(
        if value {
            "on"
        } else {
            "off"
        },
    )
}

fn gate(enabled: bool) -> (r: &'static str)
    ensures
        r@ == gate_text(enabled),
{
    if enabled {
        "Ask"
    } else {
        "Auto"
    }
}

fn or_text(value: Option<&str>, fallback: &str) -> (r: String)
    ensures
        r@ == seq_or(str_view(value), fallback@),
{
    match value {
        Some(s) => String::from_str(s),
        None => String::from_str(fallback),
    }
}

fn row(name: &str, value: String) -> (r: (String, String))
    ensures
        r.0@ == name@,
        r.1 == value,
{
    (String::from_str(name), value)
}

/// The settings of a session as a table of names and values.
pub fn session_settings_rows(settings: &SessionSettings) -> (r: Vec<(String, String)>)
    ensures
        pair_views(r@) == settings_table(*settings),
{
    let mode: String = String::from_str(
        if settings.agentic {
            "agent \u{2014} tools enabled"
        } else {
            "ask \u{2014} no tools"
        },
    );
    let iterations: String = match settings.max_iterations {
        Some(n) => decimal_of(n as u64),
        None => String::from_str("not set"),
    };
    let mut approval: String = concat4(
        "read ",
        gate(settings.approval.read_disk),
        " \u{b7} write ",
        gate(settings.approval.write_disk),
    );
    approval.append(" \u{b7} terminal ");
    approval.append(gate(settings.approval.terminal));
    let rows: Vec<(String, String)> = vec![
        row("ID", String::from_str(settings.id)),
        row("Title", String::from_str(settings.title)),
        row("Mode", mode),
        row("Model", String::from_str(settings.model)),
        row("Effort", or_text(settings.effort_level, "none sent")),
        row("Temperature", or_text(settings.temperature, "none sent")),
        row("Max iterations", iterations),
        row("Sandbox", on_off(settings.sandbox)),
        row("Verbose", on_off(settings.verbose)),
        row("Approval", approval),
    ];
    assert(pair_views(rows@) =~= settings_table(*settings));
    rows
}

pub open spec fn verb_text(changed: bool) -> Seq<char> {
    if changed {
        "set to"@
    } else {
        "is"@
    }
}

/// What is said about a setting: that it was changed, or what it is.
pub open spec fn notice_text(name: Seq<char>, changed: bool, state: Seq<char>) -> Seq<char> {
    name + " "@ + verb_text(changed) + " "@ + state
}

/// What is said about a setting: that it was changed, or what it is.
pub fn notice(name: &str, changed: bool, state: &str) -> (r: String)
    ensures
        r@ == notice_text(name@, changed, state@),
{
    let verb: &str = if changed {
        "set to"
    } else {
        "is"
    };
    let mut s: String = concat4(name, " ", verb, " ");
    s.append(state);
    s
}

pub open spec fn sandbox_state_text(sandbox: bool) -> Seq<char> {
    if sandbox {
        "on \u{2014} writes confined to the working directory and home"@
    } else {
        "off \u{2014} writes allowed anywhere"@
    }
}

/// What the sandbox is, and what that means.
pub fn sandbox_notice(sandbox: bool, changed: bool) -> (r: String)
    ensures
        r@ == notice_text("Sandbox"@, changed, sandbox_state_text(sandbox)),
{
    notice(
        "Sandbox",
        changed,
        if sandbox {
            "on \u{2014} writes confined to the working directory and home"
        } else {
            "off \u{2014} writes allowed anywhere"
        },
    )
}

/// What happens during a turn, for a front end to show.
#[derive(Debug, Clone, PartialEq, Eq)]
pub enum AgentEvent {
    IterationStarted { iteration: usize },
    RequestStarted,
    RequestFinished,
    AssistantDelta { text: String },
    Thinking { text: String },
    AssistantMessage { model: String, effort_level: Option<String>, text: String },
    Error { message: String },
    ToolCallStarted { name: String, arguments: String },
    ToolCallDenied { name: String },
    ToolCallCompleted { name: String, result: String },
    /// A message that was typed during the turn has joined it.
    Steered { text: String },
    TurnFinished,
}

/// A tool call that waits for the user's answer.
#[derive(Debug, Clone, PartialEq, Eq)]
pub struct ApprovalRequest {
    pub tool_name: String,
    pub category: &'static str,
    pub arguments: String,
}

/// What an approval is asked for, on one line.
pub open spec fn approval_line(tool_name: Seq<char>, primary: Option<Seq<char>>) -> Seq<char> {
    match primary {
        Some(detail) => tool_name + ": "@ + detail,
        None => tool_name,
    }
}

/// What an approval is asked for, on one line: the tool, and what it acts on
/// where its arguments say so.
pub fn approval_summary(request: &ApprovalRequest) -> (r: String)
    ensures
        r@ == approval_line(request.tool_name@, primary_argument_text(request.arguments@)),
{
    match primary_argument(&request.arguments) {
        Some(detail) => concat3(&request.tool_name, ": ", &detail),
        None => request.tool_name.clone(),
    }
}

pub open spec fn category_label_text(category: Seq<char>) -> Seq<char> {
    if category == "read"@ {
        "Read from disk"@
    } else if category == "write"@ {
        "Write to disk"@
    } else if category == "terminal"@ {
        "Terminal command"@
    } else {
        "Unknown action"@
    }
}

/// How a category of tool call is called in a question to the user.
pub fn category_label(category: &str) -> (r: &'static str)
    ensures
        r@ == category_label_text(category@),
{
    if same(category, "read") {
        "Read from disk"
    } else if same(category, "write") {
        "Write to disk"
    } else if same(category, "terminal") {
        "Terminal command"
    } else {
        "Unknown action"
    }
}

// ---------------------------------------------------------------------------
// Laws of what is read
// ---------------------------------------------------------------------------

/// A field is found by its name: the first of that name counts, wherever among
/// the others it stands, and a value of another kind does not stand for it.
pub proof fn a_field_is_found_by_its_name(
    fields: Seq<(Seq<char>, JsonFieldView)>,
    key: Seq<char>,
    i: int,
)
    requires
        0 <= i < fields.len(),
        fields[i].0 == key,
        forall|j: int| 0 <= j < i ==> (#[trigger] fields[j]).0 != key,
    ensures
        fields[i].1 matches JsonFieldView::Text(s) ==> text_field(fields, key) == Some(s)
            && unsigned_field(fields, key) is None,
        fields[i].1 matches JsonFieldView::Other { unsigned, .. } ==> text_field(fields, key) is None
            && unsigned_field(fields, key) == unsigned,
    decreases i,
{
    if i > 0 {
        assert(fields[0].0 != key);
        let rest = fields.drop_first();
        assert forall|j: int| 0 <= j < i - 1 implies (#[trigger] rest[j]).0 != key by {
            assert(rest[j] == fields[j + 1]);
        }
        a_field_is_found_by_its_name(rest, key, i - 1);
    }
}

/// What is not given is not found.
pub proof fn a_missing_field_is_not_found(
    fields: Seq<(Seq<char>, JsonFieldView)>,
    key: Seq<char>,
)
    requires
        forall|j: int| 0 <= j < fields.len() ==> (#[trigger] fields[j]).0 != key,
    ensures
        text_field(fields, key) is None,
        unsigned_field(fields, key) is None,
    decreases fields.len(),
{
    if fields.len() > 0 {
        assert(fields[0].0 != key);
        let rest = fields.drop_first();
        assert forall|j: int| 0 <= j < rest.len() implies (#[trigger] rest[j]).0 != key by {
            assert(rest[j] == fields[j + 1]);
        }
        a_missing_field_is_not_found(rest, key);
    }
}

/// A summary starts as the text does once that is flat and trimmed: every
/// character up to the limit stands in its place, with an ellipsis behind them
/// exactly where there are more.
pub proof fn a_summary_starts_as_the_text_does(s: Seq<char>, max: nat)
    ensures
        ({
            let flat = trim(flattened(s));
            &&& flat.len() <= max ==> summary_text(s, max) == flat
            &&& flat.len() > max ==> summary_text(s, max).len() == max + 1
                && summary_text(s, max).last() == '\u{2026}'
            &&& forall|i: int|
                0 <= i < max && i < flat.len() ==> #[trigger] summary_text(s, max)[i] == flat[i]
        }),
        flattened(s).len() == s.len(),
        forall|i: int|
            0 <= i < s.len() ==> #[trigger] flattened(s)[i] == if s[i] == '\n' || s[i] == '\t' {
                ' '
            } else {
                s[i]
            },
{
}

/// What a call acts on is its file, or else its command, or else its directory.
pub proof fn a_call_is_known_by_its_file_first(fields: Seq<(Seq<char>, JsonFieldView)>)
    ensures
        text_field(fields, "filepath"@) is Some ==> primary_text(fields) == text_field(
            fields,
            "filepath"@,
        ),
        text_field(fields, "filepath"@) is None && text_field(fields, "command"@) is Some
            ==> primary_text(fields) == text_field(fields, "command"@),
        text_field(fields, "filepath"@) is None && text_field(fields, "command"@) is None
            ==> primary_text(fields) == text_field(fields, "dirpath"@),
{
}

/// Every field is shown, in its order, under its own name, with its own value:
/// a string without its quotes, anything else as its JSON text.
pub proof fn every_field_is_shown_under_its_name(
    fields: Seq<(Seq<char>, JsonFieldView)>,
    i: int,
)
    requires
        0 <= i < fields.len(),
    ensures
        field_summaries(fields).len() == fields.len(),
        field_summaries(fields)[i].0 == fields[i].0,
        fields[i].1 matches JsonFieldView::Text(s) ==> field_summaries(fields)[i].1
            == summary_text(s, 100),
        fields[i].1 matches JsonFieldView::Other { shown, .. } ==> field_summaries(fields)[i].1
            == summary_text(shown, 100),
{
}

/// Only a terminal command that names no directory gets a row more, the last
/// one, which says where the process is; no other row is touched.
pub proof fn only_a_terminal_command_gets_its_directory(
    name: Seq<char>,
    rows: Seq<(Seq<char>, Seq<char>)>,
    current_dir: Option<Seq<char>>,
)
    ensures
        call_rows(name, rows, current_dir).take(rows.len() as int) == rows,
        name != "run_terminal_command"@ ==> call_rows(name, rows, current_dir) == rows,
        current_dir is None ==> call_rows(name, rows, current_dir) == rows,
        has_row(rows, "working_dir"@) ==> call_rows(name, rows, current_dir) == rows,
        name == "run_terminal_command"@ && !has_row(rows, "working_dir"@) ==> (current_dir
            matches Some(dir) ==> call_rows(name, rows, current_dir).len() == rows.len() + 1
            && call_rows(name, rows, current_dir).last() == ("working_dir"@, dir)),
{
    assert(call_rows(name, rows, current_dir).take(rows.len() as int) =~= rows);
}

/// Only an explicit yes is one.
pub proof fn only_a_yes_is_a_yes(answer: Seq<char>)
    ensures
        is_yes("y"@),
        is_yes("yes"@),
        answer.len() == 0 ==> !is_yes(answer),
        answer.len() > 3 ==> !is_yes(answer),
        answer.len() > 0 && answer[0] != 'y' ==> !is_yes(answer),
{
    reveal_strlit("y");
    reveal_strlit("yes");
}

/// Asking and switching are read in the words for them, and a word for one is
/// never a word for the other.
pub proof fn words_for_on_and_off_are_told_apart(word: Seq<char>)
    ensures
        bool_of("on"@) == Some(true),
        bool_of("off"@) == Some(false),
        bool_of("true"@) == Some(true),
        bool_of("false"@) == Some(false),
        bool_of("yes"@) == Some(true),
        bool_of("no"@) == Some(false),
        bool_of("1"@) == Some(true),
        bool_of("0"@) == Some(false),
        word.len() == 0 ==> bool_of(word) is None,
        word.len() > 8 ==> bool_of(word) is None,
{
    the_words_for_on_and_off_differ();
}

/// Behind `/model` stands the model, as it is spelled; without one the model is
/// shown.
pub proof fn a_model_is_taken_as_it_is_spelled(model: Seq<char>, number: Option<Temperature>)
    requires
        model.len() > 0,
        trim(model) == model,
    ensures
        reading("/model"@ + " "@ + model, number) == SubmissionView::SetModel(model),
        reading("/model"@, number) == SubmissionView::ShowModel,
{
    reveal_strlit("/model");
    crate::text::an_argument_stands_behind_its_name("/model"@, model);
    let t = "/model"@;
    assert(trim(t) == t);
    assert(t.take(6) =~= t);
    assert(t.skip(6).len() == 0);
}

/// The modes are switched by their names alone.
pub proof fn a_mode_is_switched_by_its_name(number: Option<Temperature>)
    ensures
        reading("/agent"@, number) == SubmissionView::SetAgentic(true),
        reading("/ask"@, number) == SubmissionView::SetAgentic(false),
        reading("/verbose"@, number) == SubmissionView::ToggleVerbose,
{
    reveal_strlit("/model");
    reveal_strlit("/agent");
    reveal_strlit("/ask");
    reveal_strlit("/verbose");
    let agent = "/agent"@;
    let ask = "/ask"@;
    let verbose = "/verbose"@;
    assert(trim(agent) == agent);
    assert(trim(ask) == ask);
    assert(trim(verbose) == verbose);
    crate::text::a_different_start_is_no_prefix(agent, "/model"@, 1);
    crate::text::a_different_start_is_no_prefix(ask, "/model"@, 1);
    crate::text::a_different_start_is_no_prefix(verbose, "/model"@, 1);
    crate::text::a_different_start_is_no_prefix(ask, "/agent"@, 2);
    crate::text::a_different_start_is_no_prefix(verbose, "/agent"@, 1);
    crate::text::a_different_start_is_no_prefix(verbose, "/ask"@, 1);
    assert(agent.take(6) =~= agent && agent.skip(6).len() == 0);
    assert(ask.take(4) =~= ask && ask.skip(4).len() == 0);
    assert(verbose.take(8) =~= verbose && verbose.skip(8).len() == 0);
}

proof fn no_model_and_no_mode(t: Seq<char>)
    requires
        t.len() > 1,
        t[1] != 'm' || (t.len() > 2 && t[2] != 'o'),
        t[1] != 'a' || (t.len() > 2 && t[2] != 'g' && t[2] != 's'),
        t[1] != 'v',
    ensures
        model_command(t) is None,
        mode_command(t) is None,
{
    reveal_strlit("/model");
    reveal_strlit("/agent");
    reveal_strlit("/ask");
    reveal_strlit("/verbose");
    let i: int = if t[1] != 'm' {
        1
    } else {
        2
    };
    crate::text::a_different_start_is_no_prefix(t, "/model"@, i);
    let k: int = if t[1] != 'a' {
        1
    } else {
        2
    };
    crate::text::a_different_start_is_no_prefix(t, "/agent"@, k);
    crate::text::a_different_start_is_no_prefix(t, "/ask"@, k);
    crate::text::a_different_start_is_no_prefix(t, "/verbose"@, 1);
}

/// Behind `/effort` stands the level, as it is spelled, but for the two words
/// that clear it and that take the default again.
pub proof fn an_effort_level_is_taken_as_it_is_spelled(
    level: Seq<char>,
    number: Option<Temperature>,
)
    requires
        level.len() > 0,
        trim(level) == level,
    ensures
        ({
            let read = reading("/effort"@ + " "@ + level, number);
            &&& ascii_lowercase(level) == "clear"@ ==> read == SubmissionView::SetEffort(None)
            &&& ascii_lowercase(level) == "default"@ ==> read == SubmissionView::ResetEffort
            &&& ascii_lowercase(level) != "clear"@ && ascii_lowercase(level) != "default"@ ==> read
                == SubmissionView::SetEffort(Some(level))
        }),
{
    reveal_strlit("/effort");
    the_two_words_are_lower_case();
    crate::text::an_argument_stands_behind_its_name("/effort"@, level);
    let t = "/effort"@ + " "@ + level;
    assert(t[1] == 'e');
    no_model_and_no_mode(t);
}

proof fn the_two_words_are_lower_case()
    ensures
        ascii_lowercase("clear"@) == "clear"@,
        ascii_lowercase("default"@) == "default"@,
        "clear"@ != "default"@,
{
    reveal_strlit("clear");
    reveal_strlit("default");
    assert(ascii_lowercase("clear"@) =~= "clear"@);
    assert(ascii_lowercase("default"@) =~= "default"@);
    assert("clear"@.len() != "default"@.len());
}

/// Behind `/max-iterations` stands the number, in full, or one of the two
/// words; zero and what is no number set nothing.
pub proof fn a_cap_is_the_number_that_is_given(n: usize, number: Option<Temperature>)
    requires
        n > 0,
    ensures
        reading("/max-iterations"@ + " "@ + decimal(n as nat), number)
            == SubmissionView::SetMaxIterations(Some(n)),
        reading("/max-iterations"@ + " "@ + "clear"@, number)
            == SubmissionView::SetMaxIterations(None),
        reading("/max-iterations"@ + " "@ + "default"@, number)
            == SubmissionView::ResetMaxIterations,
        iterations_command("/max-iterations"@ + " "@ + "0"@) is None,
{
    reveal_strlit("/max-iterations");
    reveal_strlit("/effort");
    reveal_strlit("0");
    the_two_words_are_lower_case();
    reveal_strlit("clear");
    reveal_strlit("default");
    let digits = decimal(n as nat);
    crate::text::a_printed_number_is_read_again(n as nat, usize::MAX as nat);
    crate::text::a_number_reads_back_from_its_digits(n as nat);
    digits_are_one_word(digits);
    digits_are_one_word("0"@);
    a_cap_stands_behind_its_name(digits);
    a_cap_stands_behind_its_name("clear"@);
    a_cap_stands_behind_its_name("default"@);
    a_cap_stands_behind_its_name("0"@);
    assert("0"@.drop_last() =~= Seq::<char>::empty());
    assert(crate::text::digits_value("0"@.drop_last()) == 0);
    assert(crate::text::digits_value("0"@) == 0);
    assert(without_plus("0"@) == "0"@);
}

proof fn digits_are_one_word(digits: Seq<char>)
    requires
        digits.len() > 0,
        forall|i: int| 0 <= i < digits.len() ==> crate::text::is_digit(#[trigger] digits[i]),
    ensures
        trim(digits) == digits,
        ascii_lowercase(digits) != "clear"@,
        ascii_lowercase(digits) != "default"@,
{
    reveal_strlit("clear");
    reveal_strlit("default");
    assert(crate::text::is_digit(digits[0]));
    assert(crate::text::is_digit(digits[digits.len() - 1]));
    assert(ascii_lowercase(digits)[0] == digits[0]);
    assert("clear"@[0] == 'c' && "default"@[0] == 'd');
}

proof fn a_cap_stands_behind_its_name(value: Seq<char>)
    requires
        value.len() > 0,
        trim(value) == value,
    ensures
        ({
            let t = "/max-iterations"@ + " "@ + value;
            &&& trim(t) == t
            &&& model_command(t) is None
            &&& mode_command(t) is None
            &&& effort_command(t) is None
            &&& argument_text(t, "/max-iterations"@) == Some(value)
        }),
{
    reveal_strlit("/max-iterations");
    reveal_strlit("/effort");
    crate::text::an_argument_stands_behind_its_name("/max-iterations"@, value);
    let t = "/max-iterations"@ + " "@ + value;
    assert(t[1] == 'm' && t[2] == 'a');
    no_model_and_no_mode(t);
    crate::text::a_different_start_is_no_prefix(t, "/effort"@, 1);
}

/// Behind `/temperature`, or `/temp`, stands the number that was read, or one
/// of the two words.
pub proof fn a_temperature_is_the_number_that_is_given(
    value: Seq<char>,
    t: Temperature,
    short: bool,
)
    requires
        value.len() > 0,
        trim(value) == value,
    ensures
        ({
            let name = if short {
                "/temp"@
            } else {
                "/temperature"@
            };
            let line = name + " "@ + value;
            &&& temperature_text(line) == Some(value)
            &&& ascii_lowercase(value) == "clear"@ ==> reading(line, Some(t))
                == SubmissionView::SetTemperature(None)
            &&& ascii_lowercase(value) == "default"@ ==> reading(line, Some(t))
                == SubmissionView::ResetTemperature
            &&& ascii_lowercase(value) != "clear"@ && ascii_lowercase(value) != "default"@
                && t.usable() ==> reading(line, Some(t)) == SubmissionView::SetTemperature(Some(t))
            &&& ascii_lowercase(value) != "clear"@ && ascii_lowercase(value) != "default"@
                ==> temperature_command(line, None) is None && (!t.usable()
                ==> temperature_command(line, Some(t)) is None)
        }),
{
    reveal_strlit("/temp");
    reveal_strlit("/temperature");
    reveal_strlit("/effort");
    reveal_strlit("/max-iterations");
    reveal_strlit(" ");
    the_two_words_are_lower_case();
    let name = if short {
        "/temp"@
    } else {
        "/temperature"@
    };
    let line = name + " "@ + value;
    crate::text::an_argument_stands_behind_its_name(name, value);
    assert(line[1] == 't');
    no_model_and_no_mode(line);
    crate::text::a_different_start_is_no_prefix(line, "/effort"@, 1);
    crate::text::a_different_start_is_no_prefix(line, "/max-iterations"@, 1);
    if short {
        assert(line[5] == ' ');
        crate::text::a_different_start_is_no_prefix(line, "/temperature"@, 5);
    }
}

/// The sandbox and the gates are switched as the words say, and shown where
/// there are none.
pub proof fn a_switch_is_read_in_its_words(
    word: Seq<char>,
    category: Seq<char>,
    enabled: bool,
    number: Option<Temperature>,
)
    requires
        word.len() > 0,
        forall|i: int| 0 <= i < word.len() ==> !crate::text::is_white(#[trigger] word[i]),
        bool_of(lowercase(word)) == Some(enabled),
        category == "read"@ || category == "write"@ || category == "terminal"@ || category
            == "all"@,
    ensures
        reading("/sandbox"@ + " "@ + word, number) == SubmissionView::SetSandbox(enabled),
        reading("/approval"@ + " "@ + (category + " "@ + word), number)
            == (SubmissionView::SetApproval { category, enabled }),
        reading("/sandbox"@, number) == SubmissionView::ShowSandbox,
        reading("/approval"@, number) == SubmissionView::ShowApproval,
        reading("/status"@, number) == SubmissionView::ShowStatus,
{
    reveal_strlit("/sandbox");
    reveal_strlit("/approval");
    reveal_strlit("/status");
    reveal_strlit("read");
    reveal_strlit("write");
    reveal_strlit("terminal");
    reveal_strlit("all");
    reveal_strlit(" ");
    assert(" "@ =~= seq![' ']);
    assert(trim(word) == word);
    switches_are_no_other_command("/sandbox"@ + " "@ + word, number);
    crate::text::an_argument_stands_behind_its_name("/sandbox"@, word);
    let line = "/sandbox"@ + " "@ + word;
    crate::text::a_different_start_is_no_prefix(line, "/approval"@, 1);
    crate::text::a_different_start_is_no_prefix(line, "/status"@, 2);
    let both = category + " "@ + word;
    assert(both[0] == category[0]);
    assert(both[both.len() - 1] == word[word.len() - 1]);
    assert(trim(both) == both);
    crate::text::an_argument_stands_behind_its_name("/approval"@, both);
    let line = "/approval"@ + " "@ + both;
    switches_are_no_other_command(line, number);
    crate::text::a_different_start_is_no_prefix(line, "/sandbox"@, 1);
    crate::text::a_different_start_is_no_prefix(line, "/status"@, 1);
    crate::text::white_space_ends_a_word(category, ' ', word);
    crate::text::white_space_ends_a_word(word, ' ', Seq::empty());
    assert(words(both) =~= seq![category, word]);
    alone_is_shown("/sandbox"@, number);
    alone_is_shown("/approval"@, number);
    alone_is_shown("/status"@, number);
}

proof fn switches_are_no_other_command(t: Seq<char>, number: Option<Temperature>)
    requires
        t.len() > 2,
        t[1] == 's' || (t[1] == 'a' && t[2] == 'p'),
    ensures
        model_command(t) is None,
        mode_command(t) is None,
        effort_command(t) is None,
        iterations_command(t) is None,
        temperature_command(t, number) is None,
{
    reveal_strlit("/effort");
    reveal_strlit("/max-iterations");
    reveal_strlit("/temperature");
    reveal_strlit("/temp");
    no_model_and_no_mode(t);
    crate::text::a_different_start_is_no_prefix(t, "/effort"@, 1);
    crate::text::a_different_start_is_no_prefix(t, "/max-iterations"@, 1);
    crate::text::a_different_start_is_no_prefix(t, "/temperature"@, 1);
    crate::text::a_different_start_is_no_prefix(t, "/temp"@, 1);
}

proof fn alone_is_shown(name: Seq<char>, number: Option<Temperature>)
    requires
        name == "/sandbox"@ || name == "/approval"@ || name == "/status"@,
    ensures
        name == "/sandbox"@ ==> reading(name, number) == SubmissionView::ShowSandbox,
        name == "/approval"@ ==> reading(name, number) == SubmissionView::ShowApproval,
        name == "/status"@ ==> reading(name, number) == SubmissionView::ShowStatus,
{
    reveal_strlit("/sandbox");
    reveal_strlit("/approval");
    reveal_strlit("/status");
    assert(trim(name) == name);
    switches_are_no_other_command(name, number);
    assert(name.take(name.len() as int) =~= name);
    assert(name.skip(name.len() as int) =~= Seq::<char>::empty());
    crate::text::only_white_space_trims_to_nothing(Seq::empty());
    if name == "/sandbox"@ {
        crate::text::a_different_start_is_no_prefix(name, "/approval"@, 1);
    }
    if name == "/status"@ {
        crate::text::a_different_start_is_no_prefix(name, "/approval"@, 1);
        crate::text::a_different_start_is_no_prefix(name, "/sandbox"@, 2);
    }
}

/// Each setting stands under its own name, with the value that it has.
pub proof fn each_setting_stands_under_its_name(
    id: Seq<char>,
    title: Seq<char>,
    model: Seq<char>,
    agentic: bool,
    effort_level: Option<Seq<char>>,
    temperature: Option<Seq<char>>,
    max_iterations: Option<usize>,
    sandbox: bool,
    verbose: bool,
    approval: ApprovalSettings,
)
    ensures
        ({
            let rows = table_of(
                id,
                title,
                model,
                agentic,
                effort_level,
                temperature,
                max_iterations,
                sandbox,
                verbose,
                approval,
            );
            &&& rows.len() == 10
            &&& rows.contains(("ID"@, id))
            &&& rows.contains(("Title"@, title))
            &&& rows.contains(("Model"@, model))
            &&& agentic ==> rows.contains(("Mode"@, "agent \u{2014} tools enabled"@))
            &&& !agentic ==> rows.contains(("Mode"@, "ask \u{2014} no tools"@))
            &&& effort_level matches Some(level) ==> rows.contains(("Effort"@, level))
            &&& effort_level is None ==> rows.contains(("Effort"@, "none sent"@))
            &&& temperature matches Some(t) ==> rows.contains(("Temperature"@, t))
            &&& temperature is None ==> rows.contains(("Temperature"@, "none sent"@))
            &&& max_iterations matches Some(n) ==> rows.contains(
                ("Max iterations"@, decimal(n as nat)),
            )
            &&& max_iterations is None ==> rows.contains(("Max iterations"@, "not set"@))
            &&& sandbox ==> rows.contains(("Sandbox"@, "on"@))
            &&& !sandbox ==> rows.contains(("Sandbox"@, "off"@))
            &&& verbose ==> rows.contains(("Verbose"@, "on"@))
            &&& !verbose ==> rows.contains(("Verbose"@, "off"@))
        }),
        gate_text(true) == "Ask"@,
        gate_text(false) == "Auto"@,
{
    let rows = table_of(
        id,
        title,
        model,
        agentic,
        effort_level,
        temperature,
        max_iterations,
        sandbox,
        verbose,
        approval,
    );
    assert(rows[0] == ("ID"@, id));
    assert(rows[1] == ("Title"@, title));
    assert(rows[2].0 == "Mode"@);
    assert(rows[3] == ("Model"@, model));
    assert(rows[4].0 == "Effort"@);
    assert(rows[5].0 == "Temperature"@);
    assert(rows[6].0 == "Max iterations"@);
    assert(rows[7].0 == "Sandbox"@);
    assert(rows[8].0 == "Verbose"@);
    assert(rows.contains(rows[0]));
    assert(rows.contains(rows[1]));
    assert(rows.contains(rows[2]));
    assert(rows.contains(rows[3]));
    assert(rows.contains(rows[4]));
    assert(rows.contains(rows[5]));
    assert(rows.contains(rows[6]));
    assert(rows.contains(rows[7]));
    assert(rows.contains(rows[8]));
}

/// A notice says what was set and to what, and whether that changed anything.
pub proof fn a_notice_says_what_and_to_what(name: Seq<char>, state: Seq<char>)
    ensures
        notice_text(name, true, state) == name + " set to "@ + state,
        notice_text(name, false, state) == name + " is "@ + state,
{
    reveal_strlit(" ");
    reveal_strlit("set to");
    reveal_strlit(" set to ");
    reveal_strlit("is");
    reveal_strlit(" is ");
    assert(notice_text(name, true, state) =~= name + " set to "@ + state);
    assert(notice_text(name, false, state) =~= name + " is "@ + state);
}

/// A reply is labelled by its model, with the effort level in brackets where
/// one was sent.
pub proof fn a_label_names_model_and_effort(model: Seq<char>, effort: Seq<char>)
    ensures
        label_text(model, None) == model,
        label_text(model, Some(effort)) == model + " ("@ + effort + ")"@,
{
}

/// A question names the tool, and what it acts on where that is known.
pub proof fn a_question_names_the_tool_and_its_object(tool_name: Seq<char>, detail: Seq<char>)
    ensures
        approval_line(tool_name, None) == tool_name,
        approval_line(tool_name, Some(detail)) == tool_name + ": "@ + detail,
{
}

proof fn the_words_for_on_and_off_differ()
    ensures
        "true"@.len() == 4 && "on"@.len() == 2 && "yes"@.len() == 3 && "1"@.len() == 1,
        "false"@.len() == 5 && "off"@.len() == 3 && "no"@.len() == 2 && "0"@.len() == 1,
        "on"@ != "no"@ && "yes"@ != "off"@ && "1"@ != "0"@,
{
    reveal_strlit("true");
    reveal_strlit("on");
    reveal_strlit("yes");
    reveal_strlit("1");
    reveal_strlit("false");
    reveal_strlit("off");
    reveal_strlit("no");
    reveal_strlit("0");
    assert("on"@[0] == 'o' && "no"@[0] == 'n');
    assert("yes"@[0] == 'y' && "off"@[0] == 'o');
    assert("1"@[0] == '1' && "0"@[0] == '0');
}

/// A command that is known and not understood is answered with its usage, and
/// never sent as a message.
pub proof fn a_misused_command_is_answered_with_its_usage(number: Option<Temperature>)
    ensures
        reading("/effort"@, number) == SubmissionView::UnknownCommand(
            "Unrecognized /"@ + "effort"@ + " usage. Usage: "@ + ("/"@ + "effort"@
                + " <level> | clear | default"@),
        ),
        usage_text("temp"@) == Some(
            "/"@ + "temp"@ + " <n> | clear | default (n must be 0 or greater)"@,
        ),
        usage_text("temperature"@) == Some(
            "/"@ + "temperature"@ + " <n> | clear | default (n must be 0 or greater)"@,
        ),
        usage_text("approval"@) == Some(
            "/"@ + "approval"@ + " <read|write|terminal|all> <on|off>"@,
        ),
        usage_text("sandbox"@) == Some("/"@ + "sandbox"@ + " <on|off>"@),
        usage_text("max-iterations"@) == Some(
            "/"@ + "max-iterations"@
                + " <n> | clear | default (n must be a positive integer)"@,
        ),
{
    reveal_strlit("/effort");
    reveal_strlit("/max-iterations");
    reveal_strlit("/temperature");
    reveal_strlit("/temp");
    reveal_strlit("/approval");
    reveal_strlit("/sandbox");
    reveal_strlit("/status");
    reveal_strlit("/");
    reveal_strlit("effort");
    reveal_strlit("max-iterations");
    reveal_strlit("temperature");
    reveal_strlit("temp");
    reveal_strlit("approval");
    reveal_strlit("sandbox");
    assert("effort"@.len() == 6 && "max-iterations"@.len() == 14 && "temperature"@.len() == 11
        && "temp"@.len() == 4 && "approval"@.len() == 8 && "sandbox"@.len() == 7);
    let t = "/effort"@;
    assert(trim(t) == t);
    assert(t[1] == 'e');
    no_model_and_no_mode(t);
    assert(t.take(7) =~= t);
    assert(t.skip(7).len() == 0);
    crate::text::a_different_start_is_no_prefix(t, "/max-iterations"@, 1);
    crate::text::a_different_start_is_no_prefix(t, "/temperature"@, 1);
    crate::text::a_different_start_is_no_prefix(t, "/temp"@, 1);
    crate::text::a_different_start_is_no_prefix(t, "/approval"@, 1);
    crate::text::a_different_start_is_no_prefix(t, "/sandbox"@, 1);
    crate::text::a_different_start_is_no_prefix(t, "/status"@, 1);
    assert(t.take(1) =~= "/"@);
    assert(t.skip(1) =~= "effort"@);
    assert forall|i: int| 0 <= i < "effort"@.len() implies !crate::text::is_white(
        #[trigger] "effort"@[i],
    ) by {}
    crate::text::white_space_ends_a_word("effort"@, ' ', Seq::empty());
}

/// A command that is not known, and close to one that is, is answered with what
/// was typed and what was probably meant.
pub proof fn a_typo_is_answered_with_what_was_meant(word: Seq<char>, nearest: Seq<char>)
    requires
        word.len() > 0,
        forall|i: int| 0 <= i < word.len() ==> !crate::text::is_white(#[trigger] word[i]),
        usage_text(word) is None,
        nearest_name(word) == Some(nearest),
    ensures
        usage_text(nearest) is None ==> unknown_command("/"@ + word) == Some(
            SubmissionView::UnknownCommand(
                "Unrecognized command /"@ + word + ". Did you mean /"@ + nearest + "?"@,
            ),
        ),
        usage_text(nearest) matches Some(usage) ==> unknown_command("/"@ + word) == Some(
            SubmissionView::UnknownCommand(
                "Unrecognized command /"@ + word + ". Did you mean /"@ + nearest + "? Usage: "@
                    + usage,
            ),
        ),
{
    reveal_strlit("/");
    let t = "/"@ + word;
    assert(t.take(1) =~= "/"@);
    assert(t.skip(1) =~= word);
    crate::text::white_space_ends_a_word(word, ' ', Seq::empty());
}

/// The table of a session's settings holds each of them under its own name.
pub proof fn a_settings_table_holds_each_setting(s: SessionSettings)
    ensures
        settings_table(s).contains(("ID"@, s.id@)),
        settings_table(s).contains(("Title"@, s.title@)),
        settings_table(s).contains(("Model"@, s.model@)),
        s.effort_level matches Some(level) ==> settings_table(s).contains(("Effort"@, level@)),
        s.temperature matches Some(t) ==> settings_table(s).contains(("Temperature"@, t@)),
        s.max_iterations matches Some(n) ==> settings_table(s).contains(
            ("Max iterations"@, decimal(n as nat)),
        ),
        s.sandbox ==> settings_table(s).contains(("Sandbox"@, "on"@)),
        !s.sandbox ==> settings_table(s).contains(("Sandbox"@, "off"@)),
        s.verbose ==> settings_table(s).contains(("Verbose"@, "on"@)),
        !s.verbose ==> settings_table(s).contains(("Verbose"@, "off"@)),
        s.agentic ==> settings_table(s).contains(("Mode"@, "agent \u{2014} tools enabled"@)),
        !s.agentic ==> settings_table(s).contains(("Mode"@, "ask \u{2014} no tools"@)),
        ({
            let row = settings_table(s)[9];
            &&& row.0 == "Approval"@
            &&& row.1 == "read "@ + gate_text(s.approval.read_disk) + " \u{b7} write "@ + gate_text(
                s.approval.write_disk,
            ) + " \u{b7} terminal "@ + gate_text(s.approval.terminal)
        }),
{
    each_setting_stands_under_its_name(
        s.id@,
        s.title@,
        s.model@,
        s.agentic,
        str_view(s.effort_level),
        str_view(s.temperature),
        s.max_iterations,
        s.sandbox,
        s.verbose,
        *s.approval,
    );
}

/// The state of the sandbox, and what a call does, are said in their own words.
pub proof fn states_are_said_in_their_words()
    ensures
        sandbox_state_text(true)
            == "on \u{2014} writes confined to the working directory and home"@,
        sandbox_state_text(false) == "off \u{2014} writes allowed anywhere"@,
        category_label_text("read"@) == "Read from disk"@,
        category_label_text("write"@) == "Write to disk"@,
        category_label_text("terminal"@) == "Terminal command"@,
        category_label_text("unknown"@) == "Unknown action"@,
{
    reveal_strlit("read");
    reveal_strlit("write");
    reveal_strlit("terminal");
    reveal_strlit("unknown");
    assert("read"@.len() == 4 && "write"@.len() == 5 && "terminal"@.len() == 8 && "unknown"@.len()
        == 7);
}

/// The word of a command is what stands behind the slash, up to the first white
/// space, whatever follows.
pub proof fn the_word_of_a_command_is_its_first(word: Seq<char>, rest: Seq<char>, text: Seq<char>)
    requires
        word.len() > 0,
        forall|i: int| 0 <= i < word.len() ==> !crate::text::is_white(#[trigger] word[i]),
    ensures
        slash_word("/"@ + (word + seq![' '] + rest)) == Some(word),
        slash_word("/"@ + word) == Some(word),
        text.len() > 0 && text[0] != '/' ==> slash_word(text) is None,
{
    reveal_strlit("/");
    crate::text::white_space_ends_a_word(word, ' ', rest);
    let a = "/"@ + (word + seq![' '] + rest);
    assert(a.take(1) =~= "/"@);
    assert(a.skip(1) =~= word + seq![' '] + rest);
    let b = "/"@ + word;
    assert(b.take(1) =~= "/"@);
    assert(b.skip(1) =~= word);
    if text.len() > 0 && text[0] != '/' {
        crate::text::a_different_start_is_no_prefix(text, "/"@, 0);
    }
}

/// What a line was read as holds what was read, and nothing else.
pub proof fn a_submission_holds_what_was_read(
    text: String,
    enabled: bool,
    cap: Option<usize>,
    t: Option<Temperature>,
    level: Option<String>,
)
    ensures
        Submission::Message(text)@ == SubmissionView::Message(text@),
        Submission::SetModel(text)@ == SubmissionView::SetModel(text@),
        Submission::SetAgentic(enabled)@ == SubmissionView::SetAgentic(enabled),
        Submission::SetEffort(level)@ == SubmissionView::SetEffort(opt_view(level)),
        Submission::SetVerbose(enabled)@ == SubmissionView::SetVerbose(enabled),
        Submission::SetStream(enabled)@ == SubmissionView::SetStream(enabled),
        Submission::SetTitle(text)@ == SubmissionView::SetTitle(text@),
        Submission::SetMaxIterations(cap)@ == SubmissionView::SetMaxIterations(cap),
        Submission::SetTemperature(t)@ == SubmissionView::SetTemperature(t),
        Submission::SetSandbox(enabled)@ == SubmissionView::SetSandbox(enabled),
        (Submission::SetApproval { category: text, enabled })@ == (SubmissionView::SetApproval {
            category: text@,
            enabled,
        }),
        Submission::UnknownCommand(text)@ == SubmissionView::UnknownCommand(text@),
        Submission::ResetEffort@ == SubmissionView::ResetEffort,
        Submission::ResetMaxIterations@ == SubmissionView::ResetMaxIterations,
        Submission::ResetTemperature@ == SubmissionView::ResetTemperature,
        Submission::ToggleVerbose@ == SubmissionView::ToggleVerbose,
        Submission::ShowModel@ == SubmissionView::ShowModel,
        Submission::ShowStatus@ == SubmissionView::ShowStatus,
        Submission::ShowSandbox@ == SubmissionView::ShowSandbox,
        Submission::ShowApproval@ == SubmissionView::ShowApproval,
        JsonField::Text(text)@ == JsonFieldView::Text(text@),
{
}

} // verus!
